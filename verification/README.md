# vid_launcher

A launcher that shows one tile per folder under `~/Videos` and plays a
random video of a folder, preferring videos that were not watched for a
long time.

- `src/` is the verified library (Verus): the launcher's state machine
  (`launcher`), shows (`shows`), the rules for walking folders and telling
  video files apart (`files`), the weighting and random choice of a video
  (`weights`), thumbnail names and the ffmpeg filter (`thumbnails`), and the
  window layout (`layout`).
- `app/` is the program around it: the iced window, file system access,
  processes and timers.
- `tests/` exercise the library.
