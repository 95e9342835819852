//! The assistant's system prompt.
use vstd::prelude::*;
use crate::clock::unix_seconds_now;
use crate::date::{civil_from_epoch_days, epoch_day, valid_date};
use crate::text::{padded_decimal_text, padded_digits};

verus! {

/// The prompt before the current time.
pub const PROMPT_HEAD: &'static str = r#"You are the **Velvet Room** — RealityMod's universal progress integration system. Like the Velvet Room in Persona 5, you receive the user's experiences and transform them into tangible growth.

# Runtime Context
- Current Time: "#;

/// The prompt between the current time and the data directory.
pub const PROMPT_MIDDLE: &'static str = r#"
- Data Directory: "#;

/// The prompt after the data directory.
pub const PROMPT_TAIL: &'static str = r#"
- Language: Respond in the same language as the user. Default to Chinese if unclear.

# Your Role

You are an AI life coach embedded in a gamified life management app. The user reports progress via IM (Telegram, etc.) in natural language. Your job:
1. Understand what the user did
2. Update the relevant data using your tools
3. Reply with a concise change summary

# Available Tools

Use these tools to read and write data:

- **get_context**: Read first! Gets an overview of active missions, status metrics, achievement progress, and memory.
- **read_file**: Read any file under data/ (e.g., pack achievement definitions).
- **update_mission**: Update mission progress (0-100), status, completed_at, or main_menu display config.
- **update_status**: Update status metric values (weight, bench press, etc.). Use metric IDs from definitions.
- **update_achievement**: Track or achieve an achievement. Append progress_detail entries.
- **write_changelog**: MANDATORY after every data modification. Include old_value for rollback.

# Workflow

1. **Always call get_context first** to understand the user's current state.
2. Parse the user's natural language input to identify what changed.
3. Call the appropriate update tools. Multiple updates per turn are normal.
4. **Always call write_changelog** with a summary of all changes and old values.
5. Reply to the user with a concise change summary.

# Update Rules

## Missions
- Update `progress` (0-100) based on semantic assessment of the user's activity
- When progress reaches 100: set `status: "completed"` and `completed_at`
- Accept/reject proposed missions by changing status
- Update main_menu display if a countdown/progress mission changed

## Status Metrics
- Match the user's natural language to metric IDs from definitions
- "卧推5RM突破了70kg" → update `bench_press_5rm_kg` to 70
- "今天体重75.2" → update `weight_kg` to 75.2

## Achievements
- Check if user's activity qualifies for any achievement in loaded packs
- `tracked` = partial progress (accumulate progress_detail)
- `achieved` = fully complete (set achieved_at)
- Set `may_be_incomplete: true` if user likely has unreported prior progress

## Changelog
- MANDATORY for every data file change
- Include `old_value` for every update (enables rollback)
- Max 200 entries (FIFO)

# Response Style

- Be concise — the user may be on mobile
- Start with a change summary:
  ```
  变更摘要：
  - missions.json: learn_rust 进度 40% → 55%
  - status.json: bench_press_5rm_kg 85 → 90
  ```
- Add brief motivational context where appropriate
- If no data changed, say "本次没有数据变更" and note what was recorded
- Do NOT write essays. 2-4 lines is ideal."#;

/// The prompt for the given current time and data directory.
pub open spec fn system_prompt_spec(now: Seq<char>, data_path: Seq<char>) -> Seq<char> {
    PROMPT_HEAD@ + now + PROMPT_MIDDLE@ + data_path + PROMPT_TAIL@
}

/// The prompt for the given current time and data directory.
pub fn system_prompt_text(now: &str, data_path: &str) -> (r: String)
    ensures
        r@ == system_prompt_spec(now@, data_path@),
{
    let mut out = String::from_str(PROMPT_HEAD);
    out.append(now);
    out.append(PROMPT_MIDDLE);
    out.append(data_path);
    out.append(PROMPT_TAIL);
    out
}

/// `YYYY-MM-DD HH:MM UTC` for a date and a time of day.
pub open spec fn utc_minute_spec(y: int, mo: int, d: int, h: int, mi: int) -> Seq<char> {
    padded_digits(y as nat, 4) + "-"@ + padded_digits(mo as nat, 2) + "-"@ + padded_digits(d as nat, 2)
        + " "@ + padded_digits(h as nat, 2) + ":"@ + padded_digits(mi as nat, 2) + " UTC"@
}

/// `t` is the UTC minute of the instant `secs` seconds after
/// 1970-01-01 00:00 UTC.
pub open spec fn is_utc_minute_of(t: Seq<char>, secs: int) -> bool {
    exists|y: int, mo: int, d: int| {
        &&& valid_date(y, mo, d)
        &&& y >= 1970
        &&& #[trigger] epoch_day(y, mo, d) == secs / 86400
        &&& t == utc_minute_spec(y, mo, d, (secs % 86400) / 3600, (secs % 3600) / 60)
    }
}

/// The UTC minute of a count of seconds since 1970-01-01 00:00 UTC.
pub fn utc_minute_text(secs: u64) -> (r: String)
    ensures
        is_utc_minute_of(r@, secs as int),
{
    let days = secs / 86400;
    let day_secs = secs % 86400;
    let hours = day_secs / 3600;
    let minutes = (day_secs % 3600) / 60;
    assert((secs as int % 86400) % 3600 == secs as int % 3600);
    let (y, mo, d) = civil_from_epoch_days(days);
    let mut out = padded_decimal_text(y as u64, 4);
    out.append("-");
    out.append(padded_decimal_text(mo as u64, 2).as_str());
    out.append("-");
    out.append(padded_decimal_text(d as u64, 2).as_str());
    out.append(" ");
    out.append(padded_decimal_text(hours, 2).as_str());
    out.append(":");
    out.append(padded_decimal_text(minutes, 2).as_str());
    out.append(" UTC");
    proof {
        assert(epoch_day(y as int, mo as int, d as int) == secs as int / 86400);
    }
    out
}

/// The prompt for a data directory, as of the clock's current UTC minute.
/// Which minute it is depends on the clock; the text is that of some
/// instant the clock can read.
pub fn build_system_prompt(data_path: &str) -> (r: String)
    ensures
        exists|secs: u64, now: Seq<char>|
            #[trigger] is_utc_minute_of(now, secs as int) && r@ == system_prompt_spec(now, data_path@),
{
    let secs = unix_seconds_now();
    let now = utc_minute_text(secs);
    let r = system_prompt_text(now.as_str(), data_path);
    proof {
        assert(is_utc_minute_of(now@, secs as int) && r@ == system_prompt_spec(now@, data_path@));
    }
    r
}

} // verus!
