# ms9k

A playlist downloader: it reads a Spotify playlist through the Web API, finds
each track on YouTube with yt-dlp, and writes the songs as tagged mp3 files.

- `src/` is the verified library (Verus): playlist ids from share links,
  songs read from the API's JSON (`json` crate), the paging of playlist items,
  the stored configuration, how songs are shared out among download tasks,
  the steps taken for each song, the yt-dlp command line, and the ID3 tag
  (`id3` crate).
- `app/` is the front end: HTTP requests, files, processes, the download
  tasks and the configuration file.
- `tests/` runs the library on concrete inputs.
