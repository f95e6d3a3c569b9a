# coc_attack_bot

A Clash of Clans attack bot for Windows: it maps button positions, records
attacks as mouse actions, replays them, and runs an auto-attack loop that
searches for a base (optionally judged by Google Gemini from a screenshot),
plays a recorded attack, waits out the battle and goes home.

The decision logic is a library verified with Verus (`src/`):

- `auto_attacker` — the auto-attack loop as a state machine (`AttackMachine::step`),
  with its transition function and the laws it keeps (counters, session rotation,
  acceptance of bases, stopping, termination of the base search, and the bound
  within which a held emergency chord stops it).
- `ai_analyzer` — the analysis prompt, Base64 image payload, reading the model's
  reply, unwrapping fenced JSON, and error answers.
- `recorder`, `player` — recorded actions, the recording loop's click/move
  detection, session files, playback steps, previews and validation.
- `screen_capture` — choosing the game window and the capture geometry,
  including the virtual screen that spans all monitors.
- `coordinate_mapper` — the button map and mapping sessions.
- `config`, `hotkeys`, `ui`, `text` — defaults, hotkey rules, menu input parsing,
  the AI setup steps, and string helpers specified over `Seq<char>`.

`app/` is the program around it: console menus, Win32 and input simulation,
screenshots, HTTP, files and logging.
