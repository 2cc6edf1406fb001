# halflight

An image resampler that takes planar linear f32 and returns the same, so
that averaging encoded sRGB values cannot be written against it.

- `src/` is the verified library (Verus): the eight EXIF orientations and
  the pixel map each names (`orientation.rs`), bringing a frame of
  interleaved samples upright (`orient.rs`), the filter choice
  (`filter.rs`), the deterministic fixtures of the conformance suite
  (`fixtures.rs`), and its u8 paths through `fast_image_resize`
  (`incumbents.rs`). Their contracts and the laws they obey are proved there.
- `app/` is the rest, in ordinary Rust: the f32 convolution kernel, the
  sRGB and gamma-2.2 transfer tables, the f32 and `image` adapters of the
  conformance suite, and the bench driver.
- `tests/` exercises the library.
