use vstd::prelude::*;

use crate::display::ssd1677::{DISPLAY_UPDATE_CTRL2, FULL_UPDATE_SEQUENCE, MASTER_ACTIVATION};
use crate::display::transport::{
    issued, lemma_issued_one, lemma_issued_then, lemma_issued_widen, BusOp, DisplayTransport,
};

verus! {

/// Full-update sequence flag, master activation, then wait for BUSY to fall.
pub open spec fn full_refresh_ops() -> Seq<BusOp> {
    seq![
        BusOp::Command(DISPLAY_UPDATE_CTRL2),
        BusOp::Data(seq![FULL_UPDATE_SEQUENCE]),
        BusOp::Command(MASTER_ACTIVATION),
        BusOp::WaitBusy,
    ]
}

/// A full refresh, byte for byte: update control 2 with the full-update
/// sequence `F7` (clock and analog on, temperature and LUT load, display
/// update, analog and clock off), master activation, then the wait for BUSY.
pub proof fn law_full_refresh_bytes()
    ensures
        full_refresh_ops() == seq![
            BusOp::Command(0x22),
            BusOp::Data(seq![0xF7u8]),
            BusOp::Command(0x20),
            BusOp::WaitBusy,
        ],
{
    assert(full_refresh_ops() =~= seq![
        BusOp::Command(0x22),
        BusOp::Data(seq![0xF7u8]),
        BusOp::Command(0x20),
        BusOp::WaitBusy,
    ]);
}

/// Trigger a full-panel refresh cycle.
///
/// Writes the full-update sequence flag to `DISPLAY_UPDATE_CTRL2`, issues
/// `MASTER_ACTIVATION` to start the refresh, then waits for the controller
/// to signal completion via the BUSY line.
pub fn trigger_full_refresh<T>(transport: &mut T) -> (r: Result<(), T::Error>) where
    T: DisplayTransport,

    ensures
        issued(*old(transport), *final(transport), full_refresh_ops(), r is Ok),
{
    let ghost t0 = *transport;
    let ghost mut done: Seq<BusOp> = Seq::empty();
    assert(issued(t0, *transport, done, true));
    let ghost tp = *transport;
    let r = transport.write_command(DISPLAY_UPDATE_CTRL2);
    proof {
        lemma_issued_one(tp, *transport, BusOp::Command(DISPLAY_UPDATE_CTRL2), r is Ok);
        lemma_issued_then(t0, tp, *transport, done, seq![BusOp::Command(DISPLAY_UPDATE_CTRL2)], r is Ok);
    }
    if r.is_err() {
        proof {
            lemma_issued_widen(t0, *transport, done + seq![BusOp::Command(DISPLAY_UPDATE_CTRL2)], full_refresh_ops());
        }
        return r;
    }
    proof {
        done = done + seq![BusOp::Command(DISPLAY_UPDATE_CTRL2)];
    }
    let flags: [u8; 1] = [FULL_UPDATE_SEQUENCE];
    assert(flags@ =~= seq![FULL_UPDATE_SEQUENCE]);
    let ghost tp = *transport;
    let r = transport.write_data(&flags);
    proof {
        lemma_issued_one(tp, *transport, BusOp::Data(flags@), r is Ok);
        lemma_issued_then(t0, tp, *transport, done, seq![BusOp::Data(flags@)], r is Ok);
    }
    if r.is_err() {
        proof {
            lemma_issued_widen(t0, *transport, done + seq![BusOp::Data(flags@)], full_refresh_ops());
        }
        return r;
    }
    proof {
        done = done + seq![BusOp::Data(flags@)];
    }
    let ghost tp = *transport;
    let r = transport.write_command(MASTER_ACTIVATION);
    proof {
        lemma_issued_one(tp, *transport, BusOp::Command(MASTER_ACTIVATION), r is Ok);
        lemma_issued_then(t0, tp, *transport, done, seq![BusOp::Command(MASTER_ACTIVATION)], r is Ok);
    }
    if r.is_err() {
        proof {
            lemma_issued_widen(t0, *transport, done + seq![BusOp::Command(MASTER_ACTIVATION)], full_refresh_ops());
        }
        return r;
    }
    proof {
        done = done + seq![BusOp::Command(MASTER_ACTIVATION)];
    }
    let ghost tp = *transport;
    let r = transport.wait_while_busy();
    proof {
        lemma_issued_one(tp, *transport, BusOp::WaitBusy, r is Ok);
        lemma_issued_then(t0, tp, *transport, done, seq![BusOp::WaitBusy], r is Ok);
    }
    if r.is_err() {
        proof {
            lemma_issued_widen(t0, *transport, done + seq![BusOp::WaitBusy], full_refresh_ops());
        }
        return r;
    }
    proof {
        done = done + seq![BusOp::WaitBusy];
    }
    assert(done =~= full_refresh_ops());
    Ok(())
}

} // verus!
