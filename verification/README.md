# kernel

The PaperDOS kernel for the Xteink X4 e-ink reader (ESP32-C3), as a verified
library plus a thin binary.

- `src/` — the library, verified with Verus: the `.pdb` application format
  (header, layout, CRC-32), the image loader (RAM budget, bss, relocations),
  the SSD1677 command sequences and strip-by-strip flushes, the retained
  display scene and its rendering, the button pipeline (ladder decoding,
  debouncing, long-press and repeat, the event queue), the launcher (app scan,
  8.3 names, bitmap font, list rendering, cursor), the SD card command frames
  and initialisation state machine, the filesystem handle tables, directory
  reads and stat lookups (names made by `embedded-sdmmc`), and the
  syscall table.
- `app/` — the binary: peripherals, the SPI and ADC drivers, the FAT volume
  manager, the launcher loop, the `extern "C"` syscall entry points and the
  jump into a loaded app.
- `tests/` — tests of the library on concrete values.
