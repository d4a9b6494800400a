# lumen_grabber

The logic of a desktop video grabber built on yt-dlp and ffmpeg, verified with
Verus, and the command layer that runs the programs around it.

- `src/text.rs`: whitespace, trimming, word splitting, substring search,
  decimal rendering and `i64` reading over character sequences.
- `src/progress.rs`: yt-dlp's progress and destination lines, and the
  download session that turns each output line into the event to report.
- `src/formats.rs`: the qualities offered for a video, their labels (with the
  size in megabytes to one decimal) and their order.
- `src/json.rs`: JSON values as plain data, read through serde_json, and
  their members.
- `src/video_info.rs`: the metadata read from `yt-dlp --dump-json`.
- `src/download.rs`: the yt-dlp command line and the per-download pause flags.
- `src/setup.rs`: where yt-dlp and ffmpeg come from, how they are found and
  unpacked, and how a file is shown in the file manager.
- `src/archive.rs`: taking the ffmpeg program out of a downloaded zip or
  gzipped tar archive.
- `src/files.rs`: recognising an already downloaded file by name.
- `app/lib.rs`: the commands themselves: processes, files, network, threads.
