# ark_discovery

The decisions of a flight controller's sensing firmware and of its host tool, verified with Verus.
The board is the ARK FPV: an IIM-42653 IMU on SPI, a BMP388/BMP390 barometer and an
IIS2MDC/LIS2MDL magnetometer on I2C, and a USB serial link to the host.

The library in `src/` never touches a bus, a clock or a port. A driver says which transactions to
perform and makes sense of the bytes that come back; the telemetry layer appends to a transmit
queue; the host side takes bytes and gives lines back. The program in `app/` performs the
transfers, waits, runs the floating-point estimators and prints.

| Module | What it holds |
| --- | --- |
| `sensors` | what the drivers share; `sensors::{imu, baro, mag}` are the drivers |
| `i2c_regs` | register access on I2C |
| `words` | integers out of register bytes |
| `fusion` | collecting samples for the estimators, and what one fusion step feeds them |
| `telemetry` | text lines, binary packets and the run-time modes |
| `wire` | the telemetry wire format, through the `discovery-telemetry` crate |
| `figures`, `text` | numbers as text |
| `telem` | the host tool: choosing a port, frames as readable lines |
| `firmware` | boot-loader request, serial commands, heartbeat |
| `build_info` | the commit hash that a build carries |
| `config` | rates |

What is believed without proof is marked `#[verifier::external_body]` in the source: the calls into
`discovery-telemetry` and `heapless`, and three services of the standard library (rendering a
floating-point number, lossy decoding of UTF-8, trimming white space). The comment above each says
what is claimed.

The laws that span functions are public proof functions next to what they speak of. Among them:
binary output reaches the host complete and in order however the link cuts it up
(`telemetry::binary_output_arrives`), a decoder is back in step after any zero
(`wire::resyncs_at_every_zero`), a bring-up runs to its end whatever the chip answers
(`sensors::mag::bring_up_runs_to_its_end`, `sensors::baro::bring_up_configures_or_refuses`), and
the altitude estimator is started once and corrected in every step after that
(`fusion::altitude_is_seeded_once_and_corrected_ever_after`).
