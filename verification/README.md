# wusel

A life simulation: little creatures, the wusels, get hungry and tired, walk around,
meet each other and use the objects of their world. The library is written in Verus:
its functions carry contracts that the verifier proves.

- `src/life` – the world of the simulation: positions and areas, objects, wusels with
  their needs, abilities, relations and tasks, the world and its task manager that lets
  tasks proceed tick by tick (walking, meeting, using objects).
- `src/model`, `src/save.rs`, `src/simulation.rs`, `src/renderer.rs`, `src/config.rs` –
  the save of a running game and one simulated step on it.
- `src/tui` – what the terminal shows: positions on the screen, colours, the cells of
  progress bars and the look of every position of the world.
- `src/util` – names for wusels; `src/text.rs`, `src/random.rs` – text and random numbers.
- `app/` – the program around the library: files, the terminal and the main loop.
- `tests/` – scenarios run on the library.
