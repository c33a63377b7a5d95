# hyperion

Verified core of a LED ambient-light daemon, written in Verus.

- `src/image.rs`: raw RGB images, rectangular views on images, their export
  back to raw images, and the laws that tie them together.
- `src/kitty.rs`: framing of base64 PNG data in the escape sequences of the
  kitty terminal graphics protocol; PNG and base64 encoding are done by the
  `image` and `base64` crates behind trusted wrappers.
- `src/idle_tracker.rs`: the state machine that decides when a LED device is
  idle, with its laws.
- `src/input_message.rs`, `src/state_update.rs`: messages between components.
- `src/color.rs`, `src/text.rs`: colors and decimal text.
- `app/`: unverified glue: terminal output, error messages, `palette`
  conversions, and the floating-point color-difference tracking.
