# rusic

The core of the Rusic music player, verified with Verus: what the player does
when a track is chosen, skipped or ends, how its queue, history, shuffle and
repeat modes behave, how it talks to a Jellyfin server, and how the views
order, filter and describe the library.

## Layout

- `src/` — the verified library.
  - `controller` — the player controller: queue, history, shuffle, repeat,
    play generations (a stale remote stream is never played).
  - `ticker` — the periodic playback task: server reports, pings, progress,
    moving on at the end of a track, listen counts; media-key commands.
  - `presence` — what the rich-presence status shows and when it changes.
  - `jellyfin` — the requests to a Jellyfin server, and the conversion of its
    answers into library tracks and albums.
  - `sync` — fetching a server's music libraries page by page.
  - `listing` — the library views: sorting by title, artist or album,
    one album per title, artist pages, favorites, playlists, the visible
    window of a long list.
  - `ordering`, `compound` — the text order, compound keys and the stable
    sort the views share.
  - `album_queue` — an album's tracks in disc and track order.
  - `media`, `artwork` — stream and cover URLs, the `artwork://` protocol,
    inline `data:` cover URLs.
  - `themes`, `theme_editor` — theme stylesheets and custom themes.
  - `storage` — the saved page state.
  - `sidebar` — the order of the sidebar's entries and its resizing.
  - `audio` — channel conversion, playback position and flags of the player.
  - `display`, `config`, `models`, `keyed`, `text` — labels, settings,
    the data model, a string-keyed map and text helpers.
- `tests/` — tests of the library on concrete values.
- `app/` — a command-line player around the library: configuration and
  theme files, HTTP, audio decoding and output, the `artwork://` handler.
