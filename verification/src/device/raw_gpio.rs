use vstd::prelude::*;

verus! {

/// Set-one-to-set register of the GPIO output latch.
pub const GPIO_OUT_W1TS: u32 = 0x6000_4008;
/// Set-one-to-clear register of the GPIO output latch.
pub const GPIO_OUT_W1TC: u32 = 0x6000_400C;
/// Set-one-to-set register of the GPIO output enables.
pub const GPIO_ENABLE_W1TS: u32 = 0x6000_4024;
/// Base of the IO MUX pin registers.
pub const IO_MUX_BASE: u32 = 0x6000_9000;
/// Distance between two pins' IO MUX registers.
pub const IO_MUX_PIN_STRIDE: u32 = 0x04;
/// Base of the GPIO function-output select registers.
pub const GPIO_FUNC_OUT_SEL_BASE: u32 = 0x6000_4554;

/// Direct-register GPIO output for pins that the HAL does not expose
/// (the X4 uses GPIO12 as SD chip-select in DIO flash mode).
pub struct RawOutputPin {
    mask: u32,
}

impl RawOutputPin {
    pub closed spec fn pin_mask(&self) -> u32 {
        self.mask
    }

    /// The pin handle for GPIO `pin` (the registers are set up by the caller).
    pub fn from_pin(pin: u8) -> (p: Self)
        requires
            pin < 32,
        ensures
            p.pin_mask() == 1u32 << pin,
    {
        Self { mask: 1u32 << pin }
    }

    /// The pin's bit in the GPIO output and enable registers.
    pub fn mask(&self) -> (m: u32)
        ensures
            m == self.pin_mask(),
    {
        self.mask
    }
}

/// Address of GPIO `pin`'s IO MUX register.
pub fn io_mux_register(pin: u8) -> (addr: u32)
    ensures
        addr == IO_MUX_BASE + pin * IO_MUX_PIN_STRIDE,
{
    IO_MUX_BASE + pin as u32 * IO_MUX_PIN_STRIDE
}

/// Address of GPIO `pin`'s function-output select register.
pub fn func_out_select_register(pin: u8) -> (addr: u32)
    ensures
        addr == GPIO_FUNC_OUT_SEL_BASE + pin * 4,
{
    GPIO_FUNC_OUT_SEL_BASE + pin as u32 * 4
}

/// An IO MUX register value with its function field (bits 12–14) set to the
/// GPIO function (1) and every other bit kept.
pub fn select_gpio_function(val: u32) -> (r: u32)
    ensures
        r == (val & !(0b111u32 << 12u32)) | (1u32 << 12u32),
{
    (val & !(0b111u32 << 12)) | (1u32 << 12)
}

} // verus!
