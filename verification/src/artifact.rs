//! The persisted artifacts of one game: the output directory layout, the
//! per-goal tracking URL and file path, and the byte-exact JSON text of the
//! combined canonical artifact.  Rendering is deterministic: the bytes are a
//! function of the canonical data alone, so re-running a game over unchanged
//! upstream data rewrites identical files.

use crate::dates::date_key;
use crate::dates::date_key_string;
use crate::dates::Date;
use crate::extract::GameExportData;
use crate::extract::GameExportView;
use crate::extract::GoalDetails;
use crate::extract::GoalView;
use crate::extract::IceSide;
use crate::text::dec_rep;
use crate::text::digit_char;
use crate::text::push_decimal_u64;
use crate::text::push_digit;
use vstd::prelude::*;

verus! {

/// The character for a single hexadecimal digit, lower case.
pub open spec fn hex_char(d: int) -> char {
    if d < 10 {
        digit_char(d)
    } else if d == 10 {
        'a'
    } else if d == 11 {
        'b'
    } else if d == 12 {
        'c'
    } else if d == 13 {
        'd'
    } else if d == 14 {
        'e'
    } else {
        'f'
    }
}

/// Append the single hexadecimal digit `d` to `out`.
fn push_hex_digit(d: u32, out: &mut String)
    requires
        d < 16,
    ensures
        final(out)@ == old(out)@ + seq![hex_char(d as int)],
{
    if d < 10 {
        push_digit(d as u64, out);
    } else {
        match d {
            10 => {
                proof {
                    reveal_strlit("a");
                }
                out.append("a");
            },
            11 => {
                proof {
                    reveal_strlit("b");
                }
                out.append("b");
            },
            12 => {
                proof {
                    reveal_strlit("c");
                }
                out.append("c");
            },
            13 => {
                proof {
                    reveal_strlit("d");
                }
                out.append("d");
            },
            14 => {
                proof {
                    reveal_strlit("e");
                }
                out.append("e");
            },
            _ => {
                proof {
                    reveal_strlit("f");
                }
                out.append("f");
            },
        }
        proof {
            assert(out@ =~= old(out)@ + seq![hex_char(d as int)]);
        }
    }
}

/// How one character appears inside a JSON string: the double quote, the
/// backslash and the control characters are escaped the way serde_json
/// writes them; everything else stands as itself.
pub open spec fn json_escaped_char(c: char) -> Seq<char> {
    if c == '"' {
        seq!['\\', '"']
    } else if c == '\\' {
        seq!['\\', '\\']
    } else if c == '\u{8}' {
        seq!['\\', 'b']
    } else if c == '\u{c}' {
        seq!['\\', 'f']
    } else if c == '\n' {
        seq!['\\', 'n']
    } else if c == '\r' {
        seq!['\\', 'r']
    } else if c == '\t' {
        seq!['\\', 't']
    } else if (c as int) < 32 {
        seq!['\\', 'u', '0', '0', hex_char(c as int / 16), hex_char(c as int % 16)]
    } else {
        seq![c]
    }
}

/// A string with every character escaped for JSON.
pub open spec fn json_escaped(s: Seq<char>) -> Seq<char>
    decreases s.len(),
{
    if s.len() == 0 {
        Seq::empty()
    } else {
        json_escaped(s.drop_last()) + json_escaped_char(s.last())
    }
}

/// Append `s`, JSON-escaped, to `out`.
fn append_json_escaped(s: &str, out: &mut String)
    ensures
        final(out)@ == old(out)@ + json_escaped(s@),
{
    let n = s.unicode_len();
    let mut i: usize = 0;
    while i < n
        invariant
            i <= n,
            n == s@.len(),
            out@ == old(out)@ + json_escaped(s@.take(i as int)),
        decreases n - i,
    {
        let c = s.get_char(i);
        proof {
            assert(s@.take(i + 1).drop_last() =~= s@.take(i as int));
            assert(s@.take(i + 1).last() == s@[i as int]);
        }
        if c == '"' {
            proof {
                reveal_strlit("\\\"");
            }
            out.append("\\\"");
        } else if c == '\\' {
            proof {
                reveal_strlit("\\\\");
            }
            out.append("\\\\");
        } else if c == '\u{8}' {
            proof {
                reveal_strlit("\\b");
            }
            out.append("\\b");
        } else if c == '\u{c}' {
            proof {
                reveal_strlit("\\f");
            }
            out.append("\\f");
        } else if c == '\n' {
            proof {
                reveal_strlit("\\n");
            }
            out.append("\\n");
        } else if c == '\r' {
            proof {
                reveal_strlit("\\r");
            }
            out.append("\\r");
        } else if c == '\t' {
            proof {
                reveal_strlit("\\t");
            }
            out.append("\\t");
        } else if (c as u32) < 32 {
            proof {
                reveal_strlit("\\u00");
            }
            out.append("\\u00");
            push_hex_digit((c as u32) / 16, out);
            push_hex_digit((c as u32) % 16, out);
        } else {
            let piece = s.substring_char(i, i + 1);
            proof {
                assert(piece@ =~= seq![s@[i as int]]);
            }
            out.append(piece);
        }
        proof {
            assert(out@ =~= old(out)@ + json_escaped(s@.take(i + 1)));
        }
        i = i + 1;
    }
    proof {
        assert(s@.take(n as int) =~= s@);
    }
}

/// The JSON text of an optional string: quoted and escaped, or `null`.
pub open spec fn json_opt_string(o: Option<Seq<char>>) -> Seq<char> {
    match o {
        Some(s) => seq!['"'] + json_escaped(s) + seq!['"'],
        None => "null"@,
    }
}

/// The JSON text of a side: the variant name as a quoted string.
pub open spec fn json_side(s: IceSide) -> Seq<char> {
    match s {
        IceSide::Left => "\"Left\""@,
        IceSide::Right => "\"Right\""@,
    }
}

/// The JSON object of one canonical goal, fields in declaration order.
pub open spec fn json_goal(g: GoalView) -> Seq<char> {
    "{\"event_id\":"@ + dec_rep(g.event_id as nat) + ",\"ppt_replay_url\":"@ + json_opt_string(
        g.replay_url,
    ) + ",\"scoring_team_id\":"@ + dec_rep(g.scoring_team_id as nat)
        + ",\"home_team_defending_side\":"@ + json_side(g.side) + "}"@
}

/// The comma-separated JSON objects of a goal list.
pub open spec fn json_goals(gs: Seq<GoalView>) -> Seq<char>
    decreases gs.len(),
{
    if gs.len() == 0 {
        Seq::empty()
    } else if gs.len() == 1 {
        json_goal(gs[0])
    } else {
        json_goals(gs.drop_last()) + seq![','] + json_goal(gs.last())
    }
}

/// The complete canonical artifact of one game:
/// `{"goals":[...],"home_team_id":N}`.
pub open spec fn export_json(g: GameExportView) -> Seq<char> {
    "{\"goals\":["@ + json_goals(g.goals) + "],\"home_team_id\":"@ + dec_rep(
        g.home_team_id as nat,
    ) + "}"@
}

/// Append the JSON object of one goal to `out`.
fn append_json_goal(g: &GoalDetails, out: &mut String)
    ensures
        final(out)@ == old(out)@ + json_goal(g@),
{
    out.append("{\"event_id\":");
    push_decimal_u64(g.event_id as u64, out);
    out.append(",\"ppt_replay_url\":");
    match &g.ppt_replay_url {
        Some(u) => {
            proof {
                reveal_strlit("\"");
            }
            out.append("\"");
            append_json_escaped(u.as_str(), out);
            out.append("\"");
        },
        None => {
            out.append("null");
        },
    }
    out.append(",\"scoring_team_id\":");
    push_decimal_u64(g.scoring_team_id as u64, out);
    out.append(",\"home_team_defending_side\":");
    match g.home_team_defending_side {
        IceSide::Left => out.append("\"Left\""),
        IceSide::Right => out.append("\"Right\""),
    }
    out.append("}");
    proof {
        assert(out@ =~= old(out)@ + json_goal(g@));
    }
}

/// Render the canonical artifact of one game.  The text is a function of the
/// canonical data alone, so writing it is idempotent across runs.
pub fn export_to_json(data: &GameExportData) -> (s: String)
    ensures
        s@ == export_json(data@),
{
    let ghost goals_view = data@.goals;
    let mut out = String::new();
    out.append("{\"goals\":[");
    let n = data.goals.len();
    let mut i: usize = 0;
    while i < n
        invariant
            i <= n,
            n == data.goals.len(),
            goals_view == data@.goals,
            out@ == "{\"goals\":["@ + json_goals(goals_view.take(i as int)),
        decreases n - i,
    {
        proof {
            assert(goals_view[i as int] == data.goals@[i as int]@);
            assert(goals_view.take(i + 1).drop_last() =~= goals_view.take(i as int));
            assert(goals_view.take(i + 1).last() == goals_view[i as int]);
        }
        if i > 0 {
            proof {
                reveal_strlit(",");
            }
            out.append(",");
            append_json_goal(&data.goals[i], &mut out);
            proof {
                assert(out@ =~= "{\"goals\":["@ + json_goals(goals_view.take(i + 1)));
            }
        } else {
            append_json_goal(&data.goals[i], &mut out);
            proof {
                assert(goals_view.take(1).len() == 1);
                assert(goals_view.take(1)[0] == goals_view[0]);
                assert(out@ =~= "{\"goals\":["@ + json_goals(goals_view.take(i + 1)));
            }
        }
        i = i + 1;
    }
    out.append("],\"home_team_id\":");
    push_decimal_u64(data.home_team_id as u64, &mut out);
    out.append("}");
    proof {
        assert(goals_view.take(n as int) =~= goals_view);
        assert(out@ =~= export_json(data@));
    }
    out
}

/// Rendering the artifact is deterministic: equal canonical data yields
/// byte-identical text, so re-running a game against unchanged upstream data
/// rewrites the same artifact.
pub proof fn lemma_export_json_deterministic(a: GameExportView, b: GameExportView)
    requires
        a == b,
    ensures
        export_json(a) == export_json(b),
{
}

/// The output folder of one game: `{base}/{YYYY-MM-DD}/{game_id}`.
pub open spec fn game_folder(base: Seq<char>, game_date: Date, game_id: u32) -> Seq<char> {
    base + seq!['/'] + date_key(game_date) + seq!['/'] + dec_rep(game_id as nat)
}

/// Derive the output folder of one game under `folder`.
pub fn make_game_path(folder: &str, game_date: &Date, game_id: u32) -> (s: String)
    requires
        game_date.valid(),
    ensures
        s@ == game_folder(folder@, *game_date, game_id),
{
    let mut s = String::from_str(folder);
    proof {
        reveal_strlit("/");
    }
    s.append("/");
    let key = date_key_string(game_date);
    s.append(key.as_str());
    s.append("/");
    push_decimal_u64(game_id as u64, &mut s);
    proof {
        assert(s@ =~= game_folder(folder@, *game_date, game_id));
    }
    s
}

/// The file a goal's tracking artifact is written to:
/// `{game_path}/{event_id}`.
pub open spec fn goal_artifact_path(game_path: Seq<char>, event_id: u32) -> Seq<char> {
    game_path + seq!['/'] + dec_rep(event_id as nat)
}

/// Derive the output file of one goal's tracking artifact.
pub fn make_goal_artifact_path(game_path: &str, event_id: u32) -> (s: String)
    ensures
        s@ == goal_artifact_path(game_path@, event_id),
{
    let mut s = String::from_str(game_path);
    proof {
        reveal_strlit("/");
    }
    s.append("/");
    push_decimal_u64(event_id as u64, &mut s);
    proof {
        assert(s@ =~= goal_artifact_path(game_path@, event_id));
    }
    s
}

/// The URL a goal's tracking artifact is fetched from: the goal's own replay
/// URL when present, else templated from the season, game and event ids.
pub open spec fn tracking_url(season: u32, game_id: u32, g: GoalView) -> Seq<char> {
    match g.replay_url {
        Some(u) => u,
        None => "https://wsr.nhle.com/sprites/"@ + dec_rep(season as nat) + seq!['/'] + dec_rep(
            game_id as nat,
        ) + "/ev"@ + dec_rep(g.event_id as nat) + ".json"@,
    }
}

/// Derive the tracking URL of one goal.
pub fn goal_tracking_url(season: u32, game_id: u32, goal: &GoalDetails) -> (s: String)
    ensures
        s@ == tracking_url(season, game_id, goal@),
{
    match &goal.ppt_replay_url {
        Some(u) => u.clone(),
        None => {
            let mut s = String::from_str("https://wsr.nhle.com/sprites/");
            push_decimal_u64(season as u64, &mut s);
            proof {
                reveal_strlit("/");
            }
            s.append("/");
            push_decimal_u64(game_id as u64, &mut s);
            s.append("/ev");
            push_decimal_u64(goal.event_id as u64, &mut s);
            s.append(".json");
            proof {
                assert(s@ =~= tracking_url(season, game_id, goal@));
            }
            s
        },
    }
}

} // verus!
