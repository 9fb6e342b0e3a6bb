//! The guide that is placed in an agent's project instructions.
use vstd::prelude::*;

verus! {

/// The guide text describing the knowledge tools to an agent; the same for
/// every set of domains.
pub fn build_injection_content(_domains: &Vec<String>) -> (r: String)
    ensures
        r@ == GUIDE@,
{
    GUIDE.to_string()
}

/// The guide text.
pub const GUIDE: &'static str = "\
## Wardwell — Personal Knowledge System

Your vault is indexed. Three tools:

**wardwell_search** — Find things.
  action: search | read | history | orchestrate | retrospective | patterns | context | resume
  - \"search\": FTS query across vault
  - \"read\": full file by path
  - \"history\": query across history.jsonl files
  - \"orchestrate\": prioritized project queue
  - \"retrospective\": what happened in a time period (requires since date)
  - \"patterns\": recurring blockers, stale threads, hot topics (defaults to 90 days)
  - \"context\": session summary by ID (lightweight, cached)
  - \"resume\": full session handoff by ID — plan, progress, remaining work (always fresh, uses AI)

**wardwell_write** — Change things.
  action: sync | decide | append_history | lesson | append
  - \"sync\": FULL REPLACE of current_state.md + optionally append history.jsonl
  - \"decide\": append to decisions.md
  - \"append_history\": log to history.jsonl without state change
  - \"lesson\": append to lessons.jsonl (what went wrong, why, prevention)
  - \"append\": append to a named JSONL list (requires 'list' param, e.g. 'future-ideas'). Check existing lists first. ASK the user before creating a new list — never create lists speculatively.

**wardwell_clipboard** — Copy to clipboard (ALWAYS ask first).

**When to use:**
- User references a project → search first
- Session produced state changes → offer to sync
- Real tradeoff decision made → offer to record it
- Something broke → offer to record the lesson
- User asks \"what's next\" → orchestrate
- User asks \"how has X evolved\" → history query
- User asks \"what did I accomplish this week\" → retrospective
- User asks \"what keeps blocking me\" → patterns
- User asks \"catch me up on session X\" → context
- User asks \"pick up from session X\" or gives a session ID to continue → resume

**Source tagging:**
All writes accept an optional 'source' param. Always pass it:
- 'desktop' — from the desktop or web chat app
- 'code' — from the coding agent
- 'manual' — human-edited

**Quality bar:**
- Snapshots: one sentence focus, concrete next action
- History entries: what changed and why, not what was discussed
- Decisions: the tradeoff, not the implementation
- Lessons: root cause and prevention, not just what happened

**File roles:**
- INDEX.md — rich project notes, architecture, context. Human-edited. Never overwritten by wardwell.
- current_state.md — lightweight snapshot. FULLY REPLACED on every sync. Do NOT put rich content here.
- decisions.md — append-only. Human-readable markdown.
- history.jsonl — append-only machine log. JSONL with schema header.
- lessons.jsonl — append-only machine log. JSONL with schema header.

Other .md files in a project folder are user-managed — indexed and searchable, but never written or overwritten by wardwell.

Domains are folders under the vault root. Projects are subfolders.";

} // verus!
