# ass_code

Firmware of a USB-C powered soldering station (ESP32-S3), split in two:

- `src/` — the verified library, with its contracts and proofs:
  - `color` — the RGB565 colour bytes;
  - `ili9341` — the display command encoder: every command queues the GPIO
    register writes that send it, and the contracts state, through a model of
    the output register, which bytes the display latches;
  - `fusb302` — USB Power Delivery: decoding power objects, the request
    message, and the capability scan as a step-by-step state machine;
  - `touchbreakout_cap` — the FT6206 capacitive touch decoder and its read
    sequence; `touchbreakout` — the resistive panel arithmetic;
  - `soldering` — calibration record, the 64-sample window, and the control
    loop's decisions; `comm` — handle messages; `mpu6050` — motion alert set-up;
  - `bus` — the I2C transactions the drivers hand to the caller.
- `app/` — the program around it: performs the register writes and I2C
  transactions on the hardware, the floating-point temperature regulator, the
  user interface and the tasks.
