# media_metadata_plus

Reads media metadata (dimensions, capture and modification times, camera,
GPS, duration) from images, RAW files and videos, and extracts video
thumbnails.

- `src/` is the verified library: media type detection from magic bytes,
  the ISOBMFF box walk, the image and video readers on a file's bytes (with
  the `kamadak-exif` and `mp4` parsers behind trusted wrappers, and a check
  that a movie's boxes are sound before the `mp4` parser sees them), the
  MP4/QuickTime `mvhd`/`tkhd`/iTunes/3GPP readers, the EXIF field readers,
  WebP bitstream dimensions, the choice between cover art and a decoded
  frame, and the thumbnail scaling decision, pixel
  rotations and JPEG encoding. Each function states its result in its
  contract; the `law_*` proof functions state properties across functions.
- `app/` reads files and decodes video frames (the `ffmpeg-next` and `rayon`
  calls), and does the floating-point conversions of GPS coordinates and
  thumbnail scaling.
- `tests/` exercises the library on concrete inputs.
