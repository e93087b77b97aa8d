# BurnSubs

BurnSubs renders SRT subtitles permanently into videos with FFmpeg: a single
video/subtitle pair, or every same-name pair of a folder. A runtime test picks a
working H.264 GPU encoder before each queue, and libx264 takes over where no GPU
encoder works or one fails during a job.

## Layout

- `src/` is the library, written in Verus: every function carries a contract,
  and Verus proves all of them but those of nine small wrappers around `std`
  (`Path::file_name`, `parent`, `join`, `is_absolute`, `==` and
  `with_extension`; `str::to_lowercase`, `String::from_utf8_lossy` and
  `String::push`), whose contracts are trusted. It holds the decisions of the program: how a folder's
  videos are paired with their subtitles and which jobs are planned, which
  encoder is chosen, the FFmpeg arguments of each run and of each encoder test,
  how FFmpeg and FFprobe are found, the steps of the encoding queue with its CPU
  fallback, the state of the main window and the settings' defaults. Public
  `law_*` proof functions state what holds across calls.
- `app/` is the desktop program around it: the egui window, file dialogs,
  reading folders and files, running FFmpeg and FFprobe, the encoder thread,
  JSON settings and logging. It gathers what the library's functions read
  (file facts, environment values, process results) and does what they decide.
- `tests/` runs the library on concrete values.

## Requirements

`ffmpeg` and `ffprobe` from one FFmpeg build with `libass` and `libx264`. The
`BURNSUBS_FFMPEG_DIR` environment variable names a folder to search first, and
`BURNSUBS_VAAPI_DEVICE` a VA-API render device.
