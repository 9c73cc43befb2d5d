# photo_tagger

Tags JPEG photos and QuickTime videos for stock agencies: a vision model (Gemini
or Groq) is asked for a title, a caption and keywords, which `exiftool` embeds in
the files, up to 25 keywords in each.

`src/` is the library, verified with Verus:

| module     | what it decides                                                    |
|------------|--------------------------------------------------------------------|
| `config`   | the configuration that the environment gives                       |
| `media`    | which files are tagged, in what order, as photo or as video        |
| `reading`  | how often a file is tried, and the form in which it is sent        |
| `photos`   | the steps in which photos are tagged: batches, pairing, pauses     |
| `frames`   | how frames of a video are extracted and which of them are sent     |
| `videos`   | the steps in which videos are tagged                               |
| `prompt`   | what the model is asked                                            |
| `request`  | what is sent to which service                                      |
| `reply`    | the metadata in a service's reply                                  |
| `metadata` | titles, captions and keywords as agencies expect them              |
| `tools`    | command lines, and what the run of a tool means                    |
| `exiftool` | the runs by which a file gets its metadata                         |
| `text`, `numbers` | strings and decimal numbers                                 |

`app/` is the program: environment, files, tools and calls over the network.
`tests/` runs the library.

`exiftool` must be on the `PATH`, and `ffmpeg` for videos. The configuration is
read from the environment or a `.env` file:

```
GEMINI_API_KEY=your-key-here
GEMINI_RATE_LIMIT_MS=2000
```
