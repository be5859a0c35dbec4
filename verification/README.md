# r_flightsim

The verified core of a wireframe flight simulator set in the San Francisco Bay Area,
with AI traffic talking to air traffic control.

## Layout

- `src/` — the library, written in Verus and verified:
  - `speech`, `text`: FAA phraseology (digits, altitudes, headings, runways,
    frequencies) and the text helpers it rests on.
  - `radio`, `ambient`, `atc`: callsigns, the transmissions of each leg of the traffic
    pattern and of en-route flights, ambient filler chatter, and the ATC scheduler that
    spaces transmissions, stamps them with the times they are heard, delivers them in
    order and keeps a bounded log.
  - `traffic`, `controls`: where AI planes fly next; keyboard commands and held
    flight-control keys.
  - `airport`, `facilities`: deterministic airport layout decisions (identifier hash,
    runway headings, parallel runway groups, building plans) and the Bay Area ATC
    facility table with its lookups.
  - `epoch`, `tle`: the simulation epoch parser and the columns of a two-line element set.
  - `mesh`: mesh topology (index buffers, merged meshes, icosphere subdivision and
    the whole icosphere).
  - `profiles`, `playlist`, `tts`, `ui`, `playground`: profile ordering and lookup, music
    playlist bookkeeping, speech-synthesis tables and queues, application enums.
  - `random`: the seeded generator the chatter draws from.
- `tests/` — tests of the library on concrete values.
- `app/` — a headless front end: command line, profile loading, live orbital elements,
  and the AI traffic's kinematics feeding the radio, whose chatter it prints.

Time in the library is kept in whole milliseconds; frequencies in kHz or hundredths
of a MHz; positions in millionths of a degree; altitudes in hundreds of feet; headings
in degrees or tenths of a degree.
