use kernel::input::adc::{trimmed_mean4, ScriptedAdc};
use kernel::input::debounce::DebounceFilter;
use kernel::input::decoder::{decode_gpio1, decode_gpio2};
use kernel::input::longpress::LongPressDetector;
use kernel::input::poller::InputPoller;
use kernel::input::{ButtonEvent, ButtonId};
use kernel::syscall::input::{button_event_to_mask, button_id_to_mask};

const IDLE: (u16, u16) = (3000, 3000);
const SELECT: (u16, u16) = (1984, 3000);
const UP: (u16, u16) = (3000, 1659);

#[test]
fn trimmed_mean_drops_extremes() {
    assert_eq!(trimmed_mean4([10, 20, 30, 1000]), 25);
    assert_eq!(trimmed_mean4([5, 5, 5, 5]), 5);
    assert_eq!(trimmed_mean4([0, 65535, 65535, 0]), 32767);
    assert_eq!(trimmed_mean4([4000, 1, 2, 3]), 2);
}

#[test]
fn ladder_bands() {
    assert_eq!(decode_gpio1(0), Some(ButtonId::Right));
    assert_eq!(decode_gpio1(53), Some(ButtonId::Right));
    assert_eq!(decode_gpio1(54), None);
    assert_eq!(decode_gpio1(963), Some(ButtonId::Left));
    assert_eq!(decode_gpio1(1263), Some(ButtonId::Left));
    assert_eq!(decode_gpio1(1984), Some(ButtonId::Select));
    assert_eq!(decode_gpio1(2706), Some(ButtonId::Back));
    assert_eq!(decode_gpio1(2707), None);
    assert_eq!(decode_gpio2(20), Some(ButtonId::Down));
    assert_eq!(decode_gpio2(1509), Some(ButtonId::Up));
    assert_eq!(decode_gpio2(1508), None);
    assert_eq!(decode_gpio2(3000), None);
}

#[test]
fn debounce_needs_consecutive_readings() {
    let mut f = DebounceFilter::new(3);
    let b = Some(ButtonId::Up);
    assert_eq!(f.update(b), None);
    assert_eq!(f.update(b), None);
    assert_eq!(f.update(None), None);
    assert_eq!(f.update(b), None);
    assert_eq!(f.update(b), None);
    assert_eq!(f.update(b), b);
    assert_eq!(f.update(None), b);
    assert_eq!(f.update(None), b);
    assert_eq!(f.update(None), None);
}

#[test]
fn long_press_fires_once_per_hold() {
    let mut d = LongPressDetector::new(3);
    let b = Some(ButtonId::Select);
    assert_eq!(d.update(None), None);
    assert_eq!(d.update(b), Some(ButtonEvent::Press(ButtonId::Select)));
    assert_eq!(d.update(b), None);
    assert_eq!(d.update(b), Some(ButtonEvent::LongPress(ButtonId::Select)));
    assert_eq!(d.update(b), None);
    assert_eq!(d.update(b), None);
    assert_eq!(d.update(Some(ButtonId::Back)), Some(ButtonEvent::Press(ButtonId::Back)));
    assert_eq!(d.update(None), Some(ButtonEvent::Release(ButtonId::Back)));
}

#[test]
fn masks() {
    assert_eq!(button_id_to_mask(ButtonId::Up), 0x01);
    assert_eq!(button_id_to_mask(ButtonId::Down), 0x02);
    assert_eq!(button_id_to_mask(ButtonId::Left), 0x04);
    assert_eq!(button_id_to_mask(ButtonId::Right), 0x08);
    assert_eq!(button_id_to_mask(ButtonId::Select), 0x10);
    assert_eq!(button_id_to_mask(ButtonId::Back), 0x20);
    assert_eq!(button_event_to_mask(ButtonEvent::Repeat(ButtonId::Back)), 0x20);
    assert_eq!(button_event_to_mask(ButtonEvent::Release(ButtonId::Up)), 0x01);
}

fn poller(samples: Vec<(u16, u16)>) -> InputPoller<ScriptedAdc> {
    InputPoller::new(ScriptedAdc::new(samples, false), 2, 4)
}

#[test]
fn poller_press_long_press_repeat_release() {
    let mut script = vec![IDLE, SELECT, SELECT];
    script.extend(std::iter::repeat(SELECT).take(20));
    script.push(IDLE);
    script.push(IDLE);
    script.push(IDLE);
    let mut p = poller(script);
    let mut events = Vec::new();
    for _ in 0..28 {
        if let Some(e) = p.poll().unwrap() {
            events.push(e);
        }
    }
    assert_eq!(
        events,
        vec![
            ButtonEvent::Press(ButtonId::Select),
            ButtonEvent::LongPress(ButtonId::Select),
            ButtonEvent::Repeat(ButtonId::Select),
            ButtonEvent::Release(ButtonId::Select),
        ]
    );
}

#[test]
fn poller_switch_queues_release_then_press() {
    let mut p = poller(vec![SELECT, SELECT, UP, UP, UP]);
    assert_eq!(p.poll(), Ok(None));
    assert_eq!(p.poll(), Ok(Some(ButtonEvent::Press(ButtonId::Select))));
    assert_eq!(p.current_button(), Some(ButtonId::Select));
    assert_eq!(p.poll(), Ok(None));
    assert_eq!(p.poll(), Ok(Some(ButtonEvent::Release(ButtonId::Select))));
    assert_eq!(p.current_button(), Some(ButtonId::Up));
    assert_eq!(p.poll(), Ok(Some(ButtonEvent::Press(ButtonId::Up))));
    assert_eq!(p.last_samples(), (3000, 1659));
    assert_eq!(p.last_decoded(), (None, Some(ButtonId::Up)));
}

#[test]
fn poller_gpio1_has_priority_and_errors_pass_through() {
    let mut p = poller(vec![(0, 1659), (0, 1659)]);
    p.poll().unwrap();
    assert_eq!(p.poll(), Ok(Some(ButtonEvent::Press(ButtonId::Right))));
    let mut failing = InputPoller::new(ScriptedAdc::new(vec![IDLE], true), 2, 4);
    assert_eq!(failing.poll(), Err(()));
    assert_eq!(failing.current_button(), None);
    assert_eq!(failing.last_samples(), (0, 0));
}

#[test]
fn poller_records_the_samples_it_reads() {
    let mut p = InputPoller::new(ScriptedAdc::new(vec![(1113, 3000)], false), 2, 100);
    assert_eq!(p.poll(), Ok(None));
    assert_eq!(p.current_button(), None);
    assert_eq!(p.poll(), Ok(Some(ButtonEvent::Press(ButtonId::Left))));
    assert_eq!(p.current_button(), Some(ButtonId::Left));
    assert_eq!(p.last_samples(), (1113, 3000));
    assert_eq!(p.last_decoded(), (Some(ButtonId::Left), None));
}

#[test]
fn poller_release_then_queued_press_with_priority() {
    let mut p = InputPoller::new(ScriptedAdc::new(vec![(1113, 3000), (2556, 1659)], false), 1, 100);
    assert_eq!(p.poll(), Ok(Some(ButtonEvent::Press(ButtonId::Left))));
    assert_eq!(p.poll(), Ok(Some(ButtonEvent::Release(ButtonId::Left))));
    assert_eq!(p.current_button(), Some(ButtonId::Back));
    assert_eq!(p.poll(), Ok(Some(ButtonEvent::Press(ButtonId::Back))));
    assert_eq!(p.current_button(), Some(ButtonId::Back));
    assert_eq!(p.last_decoded(), (Some(ButtonId::Back), Some(ButtonId::Up)));
}

#[test]
fn poller_step_takes_samples_directly() {
    let mut p = InputPoller::new(ScriptedAdc::new(vec![], true), 1, 3);
    assert_eq!(p.step(1984, 3000), Some(ButtonEvent::Press(ButtonId::Select)));
    assert_eq!(p.last_samples(), (1984, 3000));
    assert_eq!(p.step(1984, 3000), None);
    assert_eq!(p.step(1984, 3000), None);
    assert_eq!(p.step(1984, 3000), Some(ButtonEvent::LongPress(ButtonId::Select)));
    for _ in 0..14 {
        assert_eq!(p.step(1984, 3000), None);
    }
    assert_eq!(p.step(1984, 3000), Some(ButtonEvent::Repeat(ButtonId::Select)));
    assert_eq!(p.step(3000, 3000), Some(ButtonEvent::Release(ButtonId::Select)));
    assert_eq!(p.current_button(), None);
}
