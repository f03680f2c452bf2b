pub mod raw_gpio;
