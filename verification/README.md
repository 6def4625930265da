# DevEnv Manager

DevEnv Manager scans local developer environments (caches, toolchains,
package stores), estimates their size, classifies cleanup candidates by risk,
moves cleanable entries into quarantine, keeps an audit log, inspects `PATH`
and installed development tools, and checks for application updates.

## Layout

- `src/` is the library, written in Verus with its contracts proved:
  - `text`, `seqs`, `sorting`: strings, sequences and stable sorting.
  - `scan`: scan rules, risk levels, scan specs, size walks, entries, reports
    and cleanup decisions.
  - `records`: quarantine planning and the audit log.
  - `paths`, `locations`: path joining, root filters, command resolution,
    search paths, Windows install directories and registry values.
  - `catalog`, `sources`, `checks`, `detail`, `managers`, `environment`: the
    development environment check: install sources, plans, version options,
    tool checks, suites, details, package managers and reports.
  - `update`: release version comparison and installer choice.
  - `shell`, `report`: command lines to launch and the HTML report.
- `app/` holds what the library cannot do itself: file system, processes,
  environment variables, the clock, JSON files and the parallel size walk.
- `tests/` exercises the library.

The catalog, online metadata, source policy, identity and scan rule files are
read at run time from the directory named by `DEVENV_MANAGER_DATA_DIR`.
