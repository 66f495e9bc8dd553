# avif_converter

The verified core of a small web service that fetches an image, makes it
upright by its EXIF orientation, optionally crops it (`bbox`), resizes it to a
fit mode (`contain` with colour or pattern padding, `cover`, `fill`, or the
default aspect-preserving resize) and encodes it as AVIF, JPEG or PNG.

Layout:

- `src/` — the library, verified with Verus.
  - `request.rs` reads the `/convert` query; `fit.rs`, `color.rs`, `crop.rs`,
    `format.rs` and `text.rs` hold the parameter rules.
  - `picture.rs` holds the trusted calls into `image` and `kamadak-exif`, each
    recorded in a ghost term that says how a picture was made.
  - `orientation.rs`, `background.rs` and `pipeline.rs` compose them.
- `tests/` — tests of the library.
- `app/` — the HTTP server (actix-web), downloads (reqwest), the `f32` steps
  (quality and the one-sided aspect-ratio resize) and the encoders.
