# esp-gpio-viewer

Watch the GPIO, PWM and ADC pins of an ESP32 or ESP32-S3 live in a browser. The device serves a
small HTTP API and a stream of server-sent events; the user interface itself is hosted elsewhere.

- `src/` is the library, verified with Verus: what is served, how pins are read and scaled, when
  frames are sent, how requests are read and routed. Every function carries a contract, and public
  proof functions state what holds across functions.
- `app/` is the firmware side: it reads registers and flash, and runs the sockets and timers with
  embassy. The chip is chosen by `--cfg 'feature="esp32"'` or `--cfg 'feature="esp32s3"'`, together
  with the feature of the same name of `esp-hal` (the manifest takes `esp32`).
- `tests/` runs the library on concrete values.

| Route           | Answer                                                |
|-----------------|-------------------------------------------------------|
| `/`             | The page that boots the user interface                |
| `/release`      | Protocol release                                      |
| `/sampling`     | Sampling interval                                     |
| `/free_psram`   | Free PSRAM                                            |
| `/espinfo`      | Chip, memory and uptime                               |
| `/partition`    | Flash partitions                                      |
| `/pinmodes`     | Modes of the registered pins                          |
| `/pinfunctions` | ADC and touch pins of the chip                        |
| `/events`       | Stream of `gpio-state` and `free_heap` events         |

```rust
let viewer = <GpioViewer>::builder()
    .register(2, PinMode::Output, PinType::Digital)
    .pwm(4, 0, 13)
    .adc(34)
    .free_heap_source(free_heap)
    .analog_source(read_adc)
    .build();
```

The library trusts three things outside of it, each behind a small function that says what is
taken for granted: the string and the vector of `heapless`, and `core::str::from_utf8`.
