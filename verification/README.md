# arcana

The data platform of Arcana, a gamified life-management HUD, as a library
whose behaviour is specified and proved with Verus, and the `arcana-data`
command line around it.

## Layout

- `src/` — the verified library.
  - `record`, `pack`, `state`, `json`, `error`, `repository`, `catalog`,
    `pack_store`, `order`, `seqs`: the data model (Records, Packs,
    Achievement states, Missions, memories, selections), its mathematical
    views, and the repository operations with their invariants.
  - `commands/`: the use cases — Records (and `record query`), Packs,
    Missions and Suggestions, Assistant Memory, Status selections, the
    mission dashboard, Achievements, Skills, atomic mutation batches and the
    context summary.
  - `cli`, `group_grammar`, `command_groups`, `contract`: the command-line
    grammar (Records, Packs, JSON, and the Mission, memory, Achievement,
    Skill, Status, context, Derived Value and batch groups), how each group
    action is prepared and dispatched (which batch operation a mutation
    becomes, which subject names its errors, `--dry-run` refused on reads,
    multi-operation batches Record-only), and the stable error and
    exit-code contract.
  - `date`, `clock`, `text`, `dashboard`: calendar arithmetic, the clock and
    identifier wrappers, text helpers, and the desktop dashboards.
  - `agent/`: the assistant's decisions — configuration layering, access
    lists, history trimming, the tool loop, the system prompt, the message
    bus and the Telegram message splitting.
  - `frontmatter`, `notes`, `legacy_achievements`, `legacy_skills`,
    `weather`: the file-based data directory's notes (item and recipe
    collections read from YAML front matter), achievement checks, skill
    levels and weather icons.
  - `laws`: properties that span several operations, among them that every
    command and every mutation batch keeps Mission, suggestion, memory and
    Achievement-state identifiers unique (`RepositoryModel::ids_unique`).
- `tests/` — the tests, run against the compiled library.
- `app/` — the `arcana-data` program: file and standard-input reading, the
  runtime directory and its lock, JSON rendering, the loading of the item
  and recipe collections, the media gallery and the status screen, and
  floating-point arithmetic (prices, daily costs, Dimension scores).
