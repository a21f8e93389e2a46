# slackwatch

The decision-making core of SlackWatch, a watcher of Kubernetes workload
images that announces new image tags through ntfy and upgrades workloads by
committing to their GitOps repositories. The core is written in Verus: its
own logic is proved against its contracts, and the calls it makes into
outside crates (URL parsing, YAML and Kubernetes object reading and
writing, image reference parsing) go through a few trusted wrappers whose
contracts name what those crates return rather than prove it.

## Layout

- `src/` — the verified library:
  - `text.rs`: character-level string helpers (number parsing and
    formatting, trimming, substring search);
  - `models.rs`: workloads and settings;
  - `notifications/ntfy.rs`: the rescan delay setting, the batch
    notifications (at most three action buttons per message) and the commit
    notification;
  - `gitops/`: the octal repair of YAML values, the rewriting of Kubernetes
    manifests (which objects are written back, with which images), and the
    order of the git steps of an upgrade;
  - `repocheck.rs`: retries of rate-limited registry requests and the paging
    of tag listings;
  - `api.rs`: the answers of the HTTP handlers and the course of an upgrade
    requested from an ntfy action button.
- `tests/` — tests of the library, run against the real outside crates.
- `app/` — the runtime: HTTP server (warp), git (git2), file walking and
  file reading and writing, the registry client (oci-distribution) and the
  ntfy dispatcher. The settings file, the workload database and the scanner
  are reached through the `Backend` trait.
