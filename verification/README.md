# lly

A Radxa toolkit of three tools: Edge text-to-speech, local whisper.cpp
transcription, and a file tool (checks, info, conversion with ffmpeg, parsing of
spreadsheets, toml and json). They run from the command line, as an MCP server,
or behind a small HTTP gateway.

`src/` is the verified library (Verus): the logic of the tools and of the
gateway and command line, with contracts.

- `text`: white space, trimming, splitting, string building.
- `number`: reading integers as `str::parse` does, writing them in decimal.
- `path`: final component, extension, stem and joining of Unix paths.
- `speech`: rate/pitch offsets, synthesis settings and reports.
- `transcribe`: whisper locations, command line and transcript.
- `files`: readable locations, extensions and sizes, ffmpeg argument checks,
  the plan of each action, conversion and parse outputs, toml documents and
  summaries.
- `json`: JSON documents read with serde_json (request bodies, json files,
  ffprobe reports).
- `gateway`: request line, headers, request body, routing and reply heads.
- `cli`: run mode and `--key value` arguments.
- `error`: the tools' errors.

`app/` is the program around it: lilyco registration, network and process
calls, file reading and writing.
