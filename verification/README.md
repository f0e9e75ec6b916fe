# GhostSpeaker, verified

GhostSpeaker reads the talk of an Ukagaka ghost aloud with a speech engine (COEIROINK,
VOICEVOX and its family, BouyomiChan). This crate holds its logic as a library proved with
Verus, and the worker program around it.

## Layout

- `src/` — the verified library.
  - `text`, `tags`, `punct`, `align`, `resplit`, `dialog`, `quick`: the Sakura Script text
    handling, written as scanners over characters with their specifications: removing tags,
    removing quick sections, splitting a talk into characters' lines and lines into speech
    segments, and pairing each segment with the raw text shown in the balloon.
  - `format`: the public text functions built on them.
  - `common`, `engine_map`, `voices`: the engines, the voices and the settings of each ghost.
  - `engine`, `coeiroink_v2`, `voicevox_family`, `bouyomichan`: what is asked of each engine
    (synthesis plans, the conversion of the lists of voices, BouyomiChan's request header).
  - `queue`: the worker's shared state — the queues, the talk paced with the balloon, the
    bookkeeping of the engines' connections — with the decisions of each command.
  - `plugin`, `menu`, `descript`, `variables`: the plugin side — the scripts answered to the
    base software, the menu, the reading of a ghost's `descript.txt`, the settings kept between sessions.
  - `system`, `resources`: reading `netstat` output, and the resources held by the worker.
- `tests/` — tests of the library.
- `app/` — the worker program: it reads JSON commands on stdin, answers on stdout, and runs
  the tasks that talk to the engines, play sounds and watch the processes. The plugin's side
  (the library loaded by the base software, with its settings file) has no program here.

The proofs run with `verus` on `src/lib.rs`.
