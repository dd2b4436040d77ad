# mudl

The core logic of MUDL, a text world played over IRC, written in Verus: its
behaviour is stated in `requires` / `ensures` contracts and proved.

## Layout

- `src/` — the verified library.
  - `irc/` — IRC wire lines (parsing, formatting, redaction), capability
    negotiation, nick and text sanitising, identity policy, NickServ replies,
    channel naming, reconnect backoff, an in-memory transport recorder, the
    registration handshake as a state machine (state and server line in,
    next state and actions out), and the NickServ replies of a logged-out
    player.
  - `object/` — the object model: properties, verbs and handlers kept in
    keyed tables; roles (containers, keys and locks, portals, wearables,
    stacks, readables); body slots and object lists; ids and slugs; player
    login names; weight bearers; `@set` and `@unset`, with the value
    literals `@set` reads and the resolution of object references (full id,
    short id, `you`/`me`, display name) among a list of objects; prototype
    defaults. `@set` takes the reference resolver and a float reader as
    arguments, and its contract is stated in terms of what they give. Item
    weights, volumes and encumbrance factors are handled the same way.
  - `mudl/` — parsers for MUDL definition files: anatomy, behaviour
    templates, triggers, schedules, NPCs, world maps, items and their role
    properties, creature, loot and resource spawners, and the include/import
    directives of the loader; applying role properties to objects.
  - `persistence/` — save metadata, optimistic revisions, the single-writer
    lock policy.
  - `loot/`, `resource/`, `spawning.rs` — spawner state kept on objects:
    writing a spawner definition onto its object, reading it back, and
    counting the items a spawner has out.
  - `assoc.rs`, `text.rs` — keyed tables and the string operations the rest
    is stated over.
  - Laws that relate several functions are public proof functions named
    `law_*`, next to the functions they speak of.
- `app/` — what stands around the library: environment settings, the writer
  lock file, IRC network connections and the loop that runs the registration
  state machine over one, loading MUDL files from disk and URLs,
  logging, JSON records, and the arithmetic on `f64` weights and volumes
  (reading a float, storing a number, judging an encumbrance factor), which
  the library's functions take as arguments.
- `tests/` — tests of the library's public functions.
