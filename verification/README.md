# app_core

The flight-planning core of a navigation app, written in Verus: every
function in `src/` carries a contract that Verus proves.

## Layout

- `src/` — the verified library.
  - `text`, `nav`, `route`, `guidance`, `items`: text helpers, navigation
    references, route components, guidance state and the items a component
    lists.
  - `flight_plan`: the plan, its guidance details and its normalisation
    (one distinct uid per component).
  - `attachment`: where departures, arrivals and approaches may stand.
  - `rebuild`, `plan_rebuild`: rebuilding the resolved legs from the
    components, and a whole plan from the components an edit lists,
    carrying guidance over by the rows it ran between.
  - `route_edits`, `plan_edits`: the checks and component lists of every
    route edit, and the edits themselves.
  - `sequencing`, `direct_to`, `guidance_restore`, `row_guidance`:
    activating, sequencing and suspending legs, Direct-To, and finding
    guidance again after an edit.
  - `row_actions`, `rows`, `display_rows`, `component_views`, `projection`,
    `ui_state`: the rows, menus and controls the pilot sees.
  - `procedure_legs`, `procedure_geometry`: the discrete parts of procedure
    legs.
  - `bundle_map`, `publication`: resolving published data packages, and
    choosing the publications whose data contracts this build reads.
  - `playback`: the status and clock of a trace playback.
- `tests/` — tests that run the library.
- Not part of the crate: the floating-point geometry of procedure legs
  (drawn display paths, hold entries, hand-offs between legs and the check of
  a final procedure's drawn path) and trace playback beyond its status and
  clock. Coordinates are held as integers in units of 10^-7 degree.
- `app/` — what stands around it: JSON decoding and encoding for the
  publication resolver, and reading floating-point record fields.
