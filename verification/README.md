# cbz_viewer

The rules of a comic book viewer, verified with Verus: what is shown on a screen, what is decoded
next and what is let go, how pages are paired, and how input, results and settings change the
state of a viewer. A library grid and the rules for neighbouring books are here too.

## Layout

* `src/domain.rs`, `src/num.rs`, `src/text.rs`, `src/sorting.rs`: the common ground.
* `src/util/`: paths, natural order, books in a folder.
* `src/viewer/`: the viewer.
  * pairing and layout: `auto_spread_plan`, `decode_layout`, `layout`
  * caches: `rgba_page_cache`, `gpu_texture_history`, `gpu_warmup_cache`, `texture_entries`
  * planning: `working_set`, `streaming_cache`, `gpu_warmup_planner`, `worker_manager`,
    `interactive_plan`, `spad`
  * the state and its changes: `state`, `display_model`, `display`, `display_chain`, `navigation`,
    `results`, `loader_poll`, `warmup_run`, `spad_run`, `playback`, `selection`, `boundary_preview`
  * a frame: `frame`, `frame_run`, `frame_end`, `progress`, `toolbar`, `overlay`, `title_lines`,
    `debug_overlay`
  * `display_laws`: what holds of every screen
* `src/grid/`: the library grid.
* `app/`: the window around the library: textures, threads, the disk, and what is painted.
* `tests/`: the library on concrete values.

Times are nanoseconds of one monotonic clock. Decoded pages and textures are handles; the pixels
behind them are kept by the application. What a viewer asks of its surroundings is collected in an
outbox that the application empties.

Laws that relate several functions are public proof functions whose names start with `law_`.
