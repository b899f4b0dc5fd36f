//! The scoreboard: finished games, kept in the order in which they are listed.

use vstd::prelude::*;
use vstd::string::{StrSliceExecFns, StringExecFns};
use vstd::multiset::Multiset;
use crate::game::{GameOver, pieces_total};
use crate::modes::{GameTime, Limits};
use crate::text::{ascii_upper, ascii_uppercase, decimal, duration_text, format_duration, push_decimal};

verus! {

broadcast use vstd::multiset::group_multiset_axioms;

/// A finished game, as the scoreboard lists it.
#[derive(Clone, Debug)]
pub struct FinishedGame {
    /// When the game ended, as `"%Y-%m-%d %H:%M"`.
    pub timestamp: String,
    /// The name of the game's mode.
    pub mode_name: String,
    /// How the game ended.
    pub end: Option<Result<(), GameOver>>,
    /// The game time played, in nanoseconds.
    pub time: GameTime,
    /// The score reached.
    pub score: u32,
    /// The lines cleared.
    pub lines: usize,
    /// The level reached.
    pub level: u32,
    /// The pieces played of each kind.
    pub pieces: [u32; 7],
    /// The limits of the game's mode.
    pub limits: Limits,
}

/// The order of two texts, character by character: `-1`, `0` or `1` as `a` comes before, is
/// equal to, or comes after `b`; a proper prefix comes first. (Characters are ordered by their
/// code points; UTF-8 keeps that order, so this is the order of Rust's strings.)
pub open spec fn text_order(a: Seq<char>, b: Seq<char>) -> int
    decreases a.len(),
{
    if a.len() == 0 {
        if b.len() == 0 { 0 } else { -1 }
    } else if b.len() == 0 {
        1
    } else if a[0] < b[0] {
        -1
    } else if a[0] > b[0] {
        1
    } else {
        text_order(a.drop_first(), b.drop_first())
    }
}

/// The order of texts is antisymmetric, and only equal texts are level.
pub proof fn lemma_text_order(a: Seq<char>, b: Seq<char>)
    ensures
        text_order(a, b) == -text_order(b, a),
        -1 <= text_order(a, b) <= 1,
        text_order(a, b) == 0 <==> a == b,
    decreases a.len(),
{
    if a.len() > 0 && b.len() > 0 {
        lemma_text_order(a.drop_first(), b.drop_first());
        if a[0] == b[0] && a.drop_first() == b.drop_first() {
            assert(a =~= seq![a[0]] + a.drop_first());
            assert(b =~= seq![b[0]] + b.drop_first());
        }
        if a == b {
            assert(a.drop_first() == b.drop_first());
        }
    } else if a.len() == 0 && b.len() == 0 {
        assert(a =~= b);
    }
}

/// The order of texts is transitive.
pub proof fn lemma_text_order_trans(a: Seq<char>, b: Seq<char>, c: Seq<char>)
    ensures
        text_order(a, b) <= 0 && text_order(b, c) <= 0 ==> text_order(a, c) <= 0,
    decreases a.len(),
{
    if a.len() > 0 && b.len() > 0 && c.len() > 0 {
        lemma_text_order_trans(a.drop_first(), b.drop_first(), c.drop_first());
    }
}

/// The order of two numbers: `-1`, `0` or `1`.
pub open spec fn num_order(x: int, y: int) -> int {
    if x < y { -1 } else if x > y { 1 } else { 0 }
}

/// The first order, or where it is level, the second.
pub open spec fn then_order(first: int, second: int) -> int {
    if first != 0 { first } else { second }
}

/// Whether the game was completed (ended successfully).
pub open spec fn completed(g: FinishedGame) -> bool {
    g.end matches Some(Ok(_))
}

/// The order of two games of the mode named by `a`'s mode: Marathon by level (highest first)
/// then score (highest first); 40-Lines by lines (most first) then time (shortest first);
/// Time Trial by time (shortest first) then lines (most first); Puzzle by level (highest
/// first) then time (shortest first); Master and every other mode by lines (most first).
pub open spec fn mode_order(a: FinishedGame, b: FinishedGame) -> int {
    let name = a.mode_name@;
    if name == "Marathon"@ {
        then_order(num_order(b.level as int, a.level as int), num_order(b.score as int, a.score as int))
    } else if name == "40-Lines"@ {
        then_order(num_order(b.lines as int, a.lines as int), num_order(a.time as int, b.time as int))
    } else if name == "Time Trial"@ {
        then_order(num_order(a.time as int, b.time as int), num_order(b.lines as int, a.lines as int))
    } else if name == "Puzzle"@ {
        then_order(num_order(b.level as int, a.level as int), num_order(a.time as int, b.time as int))
    } else {
        num_order(b.lines as int, a.lines as int)
    }
}

/// The order of the scoreboard: by mode name; within a mode, completed games first; then by
/// the mode's own order ([`mode_order`]); then the earlier game first.
pub open spec fn scoreboard_order(a: FinishedGame, b: FinishedGame) -> int {
    then_order(
        text_order(a.mode_name@, b.mode_name@),
        then_order(
            num_order(if completed(b) { 1int } else { 0 }, if completed(a) { 1int } else { 0 }),
            then_order(mode_order(a, b), text_order(a.timestamp@, b.timestamp@)),
        ),
    )
}

/// Whether `a` may stand before `b` on the scoreboard.
pub open spec fn scoreboard_before(a: FinishedGame, b: FinishedGame) -> bool {
    scoreboard_order(a, b) <= 0
}

/// Whether the games stand in the scoreboard's order.
pub open spec fn sorted_by_scoreboard(s: Seq<FinishedGame>) -> bool {
    forall|i: int, j: int| 0 <= i < j < s.len() ==> scoreboard_before(#[trigger] s[i], #[trigger] s[j])
}

/// The scoreboard's order is antisymmetric and transitive: it is a total preorder.
pub proof fn lemma_scoreboard_order(a: FinishedGame, b: FinishedGame, c: FinishedGame)
    ensures
        scoreboard_order(a, b) == -scoreboard_order(b, a),
        scoreboard_before(a, b) && scoreboard_before(b, c) ==> scoreboard_before(a, c),
        scoreboard_order(a, b) < 0 && scoreboard_before(b, c) ==> scoreboard_order(a, c) < 0,
{
    lemma_text_order(a.mode_name@, b.mode_name@);
    lemma_text_order(b.mode_name@, c.mode_name@);
    lemma_text_order(a.mode_name@, c.mode_name@);
    lemma_text_order(a.timestamp@, b.timestamp@);
    lemma_text_order(b.timestamp@, c.timestamp@);
    lemma_text_order(a.timestamp@, c.timestamp@);
    lemma_text_order_trans(a.mode_name@, b.mode_name@, c.mode_name@);
    lemma_text_order_trans(a.timestamp@, b.timestamp@, c.timestamp@);
    lemma_text_order_trans(c.mode_name@, a.mode_name@, b.mode_name@);
    lemma_text_order_trans(b.mode_name@, c.mode_name@, a.mode_name@);
    lemma_text_order_trans(c.timestamp@, a.timestamp@, b.timestamp@);
    lemma_text_order_trans(b.timestamp@, c.timestamp@, a.timestamp@);
}

/// How the scoreboard ranks two games of the same mode: a completed game comes before one
/// that was not; otherwise, a Marathon game with the higher level (then the higher score), a
/// 40-Lines game with more lines (then the shorter time), a Time Trial game with the shorter
/// time (then more lines), a Puzzle game with the higher level (then the shorter time), and a
/// game of any other mode with more lines comes first. Games of different modes are ranked by
/// the modes' names.
pub proof fn law_scoreboard_ranking(a: FinishedGame, b: FinishedGame)
    ensures
        text_order(a.mode_name@, b.mode_name@) < 0 ==> scoreboard_order(a, b) < 0,
        a.mode_name@ == b.mode_name@ ==> {
            let done_a = a.end matches Some(Ok(_));
            let done_b = b.end matches Some(Ok(_));
            let name = a.mode_name@;
            &&& (done_a && !done_b ==> scoreboard_order(a, b) < 0)
            &&& (done_a == done_b ==> {
                &&& (name == "Marathon"@ && a.level > b.level ==> scoreboard_order(a, b) < 0)
                &&& (name == "Marathon"@ && a.level == b.level && a.score > b.score ==> scoreboard_order(a, b) < 0)
                &&& (name == "40-Lines"@ && a.lines > b.lines ==> scoreboard_order(a, b) < 0)
                &&& (name == "40-Lines"@ && a.lines == b.lines && a.time < b.time ==> scoreboard_order(a, b) < 0)
                &&& (name == "Time Trial"@ && a.time < b.time ==> scoreboard_order(a, b) < 0)
                &&& (name == "Time Trial"@ && a.time == b.time && a.lines > b.lines ==> scoreboard_order(a, b) < 0)
                &&& (name == "Puzzle"@ && a.level > b.level ==> scoreboard_order(a, b) < 0)
                &&& (name == "Puzzle"@ && a.level == b.level && a.time < b.time ==> scoreboard_order(a, b) < 0)
                &&& (name != "Marathon"@ && name != "40-Lines"@ && name != "Time Trial"@ && name != "Puzzle"@
                    && a.lines > b.lines ==> scoreboard_order(a, b) < 0)
            })
        },
{
    lemma_text_order(a.mode_name@, b.mode_name@);
    reveal_strlit("Marathon");
    reveal_strlit("40-Lines");
    reveal_strlit("Time Trial");
    reveal_strlit("Puzzle");
    assert("Marathon"@[0] != "40-Lines"@[0] && "Marathon"@[0] != "Time Trial"@[0] && "Marathon"@[0] != "Puzzle"@[0]);
    assert("40-Lines"@[0] != "Time Trial"@[0] && "40-Lines"@[0] != "Puzzle"@[0] && "Time Trial"@[0] != "Puzzle"@[0]);
}

/// The order of two texts, as [`text_order`] gives it.
pub fn compare_text(a: &str, b: &str) -> (r: i8)
    ensures
        r == text_order(a@, b@),
{
    let la = a.unicode_len();
    let lb = b.unicode_len();
    let mut i: usize = 0;
    assert(a@.skip(0) =~= a@);
    assert(b@.skip(0) =~= b@);
    while i < la && i < lb
        invariant
            la == a@.len(),
            lb == b@.len(),
            i <= la,
            i <= lb,
            text_order(a@, b@) == text_order(a@.skip(i as int), b@.skip(i as int)),
        decreases la - i,
    {
        let ca = a.get_char(i);
        let cb = b.get_char(i);
        let ghost sa = a@.skip(i as int);
        let ghost sb = b@.skip(i as int);
        assert(sa[0] == ca && sb[0] == cb);
        if ca < cb {
            return -1;
        }
        if ca > cb {
            return 1;
        }
        assert(sa.drop_first() =~= a@.skip(i + 1));
        assert(sb.drop_first() =~= b@.skip(i + 1));
        i += 1;
    }
    if i == la && i == lb {
        0
    } else if i == la {
        -1
    } else {
        1
    }
}

fn compare_nums(x: u64, y: u64) -> (r: i8)
    ensures
        r == num_order(x as int, y as int),
{
    if x < y { -1 } else if x > y { 1 } else { 0 }
}

fn then_exec(first: i8, second: i8) -> (r: i8)
    ensures
        r == then_order(first as int, second as int),
{
    if first != 0 { first } else { second }
}

/// Whether the text is the given name.
fn is_named(name: &str, lit: &str) -> (r: bool)
    ensures
        r == (name@ == lit@),
{
    let c = compare_text(name, lit);
    proof {
        lemma_text_order(name@, lit@);
    }
    c == 0
}

/// The order of two games of the mode named by `a`'s mode, as [`mode_order`] gives it.
fn compare_in_mode(a: &FinishedGame, b: &FinishedGame) -> (r: i8)
    ensures
        r == mode_order(*a, *b),
{
    let name = a.mode_name.as_str();
    if is_named(name, "Marathon") {
        then_exec(compare_nums(b.level as u64, a.level as u64), compare_nums(b.score as u64, a.score as u64))
    } else if is_named(name, "40-Lines") {
        then_exec(compare_nums(b.lines as u64, a.lines as u64), compare_nums(a.time, b.time))
    } else if is_named(name, "Time Trial") {
        then_exec(compare_nums(a.time, b.time), compare_nums(b.lines as u64, a.lines as u64))
    } else if is_named(name, "Puzzle") {
        then_exec(compare_nums(b.level as u64, a.level as u64), compare_nums(a.time, b.time))
    } else {
        compare_nums(b.lines as u64, a.lines as u64)
    }
}

/// The scoreboard's order of two games, as [`scoreboard_order`] gives it.
pub fn compare_games(a: &FinishedGame, b: &FinishedGame) -> (r: i8)
    ensures
        r == scoreboard_order(*a, *b),
{
    let by_name = compare_text(a.mode_name.as_str(), b.mode_name.as_str());
    let ca: u64 = match a.end {
        Some(Ok(_)) => 1,
        _ => 0,
    };
    let cb: u64 = match b.end {
        Some(Ok(_)) => 1,
        _ => 0,
    };
    let by_end = compare_nums(cb, ca);
    let by_mode = compare_in_mode(a, b);
    let by_time = compare_text(a.timestamp.as_str(), b.timestamp.as_str());
    then_exec(by_name, then_exec(by_end, then_exec(by_mode, by_time)))
}

/// Whether `t` is `s` with `g` inserted at position `k`, after every game that may stand
/// before it and before every game that must stand after it: where games rank equally, the
/// new one comes last.
pub open spec fn inserted_after_equals(s: Seq<FinishedGame>, g: FinishedGame, k: int, t: Seq<FinishedGame>) -> bool {
    &&& 0 <= k <= s.len()
    &&& t == s.insert(k, g)
    &&& forall|i: int| 0 <= i < k ==> scoreboard_before(#[trigger] s[i], g)
    &&& forall|i: int| k <= i < s.len() ==> scoreboard_order(g, #[trigger] s[i]) < 0
}

/// Whether the games stand in order, checking each neighbouring pair.
fn is_sorted(v: &Vec<FinishedGame>) -> (r: bool)
    ensures
        r == sorted_by_scoreboard(v@),
{
    let mut i: usize = 1;
    if v.len() == 0 {
        return true;
    }
    while i < v.len()
        invariant
            1 <= i <= v@.len(),
            sorted_by_scoreboard(v@.take(i as int)),
        decreases v@.len() - i,
    {
        let o = compare_games(&v[i - 1], &v[i]);
        if o > 0 {
            assert(!scoreboard_before(v@[i - 1], v@[i as int]));
            return false;
        }
        proof {
            let s = v@;
            let t = s.take(i + 1);
            assert forall|a: int, b: int| 0 <= a < b < t.len() implies scoreboard_before(#[trigger] t[a], #[trigger] t[b]) by {
                assert(t[a] == s[a] && t[b] == s[b]);
                if b < i {
                    assert(s.take(i as int)[a] == s[a] && s.take(i as int)[b] == s[b]);
                } else if a < i - 1 {
                    assert(s.take(i as int)[a] == s[a] && s.take(i as int)[i - 1] == s[i - 1]);
                    lemma_scoreboard_order(s[a], s[i - 1], s[b]);
                }
            }
        }
        i += 1;
    }
    assert(v@.take(i as int) =~= v@);
    true
}

/// `" ({a}/{b} {unit})"`.
pub open spec fn ratio_text(a: int, b: int, unit: Seq<char>) -> Seq<char> {
    " ("@ + decimal(a as nat) + "/"@ + decimal(b as nat) + " "@ + unit + ")"@
}

/// `" ({t} / {max})"`, both durations as [`duration_text`] writes them.
pub open spec fn time_ratio_text(t: GameTime, max: GameTime) -> Seq<char> {
    " ("@ + duration_text(t) + " / "@ + duration_text(max) + ")"@
}

/// Whether the mode is none of the named ones, so a custom mode.
pub open spec fn is_custom(name: Seq<char>) -> bool {
    name != "Marathon"@ && name != "40-Lines"@ && name != "Time Trial"@ && name != "Master"@ && name != "Puzzle"@
}

/// The progress of a custom game towards its first limit (time, pieces, lines, level, score),
/// if it has one.
pub open spec fn custom_limit_text(g: FinishedGame) -> Seq<char> {
    let l = g.limits;
    if l.time is Some {
        time_ratio_text(g.time, l.time.unwrap().1)
    } else if l.pieces is Some {
        ratio_text(pieces_total(g.pieces@), l.pieces.unwrap().1 as int, "pcs"@)
    } else if l.lines is Some {
        ratio_text(g.lines as int, l.lines.unwrap().1 as int, "lns"@)
    } else if l.level is Some {
        ratio_text(g.level as int, l.level.unwrap().1 as int, "lvl"@)
    } else if l.score is Some {
        ratio_text(g.score as int, l.score.unwrap().1 as int, "pts"@)
    } else {
        Seq::empty()
    }
}

/// The line of the scoreboard for a game: its timestamp, then by mode: Marathon its score
/// (and, unless completed, the level reached of the level limit); 40-Lines its time (and,
/// unless completed, the lines of the line limit); Time Trial its lines (and, unless
/// completed, the time played of the time limit); Master the lines of the line limit; Puzzle
/// its time (and, unless completed, the stage reached of the last); a custom mode its lines,
/// score and time, and the progress towards its first limit.
pub open spec fn scoreboard_entry_spec(g: FinishedGame) -> Seq<char> {
    let head = g.timestamp@ + " ~ "@;
    let name = g.mode_name@;
    let done = completed(g);
    if name == "Marathon"@ {
        head + "Marathon: "@ + decimal(g.score as nat) + " pts"@ + if done {
            Seq::empty()
        } else {
            ratio_text(g.level as int, g.limits.level.unwrap().1 as int, "lvl"@)
        }
    } else if name == "40-Lines"@ {
        head + "40-Lines: "@ + duration_text(g.time) + if done {
            Seq::empty()
        } else {
            ratio_text(g.lines as int, g.limits.lines.unwrap().1 as int, "lns"@)
        }
    } else if name == "Time Trial"@ {
        head + "Time Trial: "@ + decimal(g.lines as nat) + " lns"@ + if done {
            Seq::empty()
        } else {
            time_ratio_text(g.time, g.limits.time.unwrap().1)
        }
    } else if name == "Master"@ {
        head + "Master: "@ + decimal(g.lines as nat) + "/"@ + decimal(g.limits.lines.unwrap().1 as nat) + " lns"@
    } else if name == "Puzzle"@ {
        head + "Puzzle Mode: "@ + duration_text(g.time) + if done {
            Seq::empty()
        } else {
            ratio_text(g.level as int, g.limits.level.unwrap().1 as int, "lvl"@)
        }
    } else {
        head + "Custom Mode: "@ + decimal(g.lines as nat) + " lns, "@ + decimal(g.score as nat) + " pts, "@
            + duration_text(g.time) + custom_limit_text(g)
    }
}

/// Whether the scoreboard line of the game can be written: a named mode holds the limit its
/// line shows, and the pieces of a custom game with a piece limit total at most `u32::MAX`.
pub open spec fn entry_defined(g: FinishedGame) -> bool {
    let name = g.mode_name@;
    let done = completed(g);
    &&& (name == "Marathon"@ && !done ==> g.limits.level is Some)
    &&& (name == "40-Lines"@ && !done ==> g.limits.lines is Some)
    &&& (name == "Time Trial"@ && !done ==> g.limits.time is Some)
    &&& (name == "Master"@ ==> g.limits.lines is Some)
    &&& (name == "Puzzle"@ && !done ==> g.limits.level is Some)
    &&& (is_custom(name) && g.limits.pieces is Some ==> pieces_total(g.pieces@) <= u32::MAX)
}

fn push_ratio(s: &mut String, a: u64, b: u64, unit: &str)
    ensures
        final(s)@ == old(s)@ + ratio_text(a as int, b as int, unit@),
{
    s.append(" (");
    push_decimal(s, a);
    s.append("/");
    push_decimal(s, b);
    s.append(" ");
    s.append(unit);
    s.append(")");
    assert(s@ =~= old(s)@ + ratio_text(a as int, b as int, unit@));
}

fn push_time_ratio(s: &mut String, t: GameTime, max: GameTime)
    ensures
        final(s)@ == old(s)@ + time_ratio_text(t, max),
{
    s.append(" (");
    let a = format_duration(t);
    s.append(a.as_str());
    s.append(" / ");
    let b = format_duration(max);
    s.append(b.as_str());
    s.append(")");
    assert(s@ =~= old(s)@ + time_ratio_text(t, max));
}

/// The line of the scoreboard for a game, as [`scoreboard_entry_spec`] gives it.
pub fn scoreboard_entry(g: &FinishedGame) -> (r: String)
    requires
        entry_defined(*g),
    ensures
        r@ == scoreboard_entry_spec(*g),
{
    let mut s = String::new();
    s.append(g.timestamp.as_str());
    s.append(" ~ ");
    let ghost head = s@;
    assert(head =~= g.timestamp@ + " ~ "@);
    let done = match g.end {
        Some(Ok(_)) => true,
        _ => false,
    };
    let name = g.mode_name.as_str();
    if is_named(name, "Marathon") {
        s.append("Marathon: ");
        push_decimal(&mut s, g.score as u64);
        s.append(" pts");
        if !done {
            let (_, max) = g.limits.level.unwrap();
            push_ratio(&mut s, g.level as u64, max as u64, "lvl");
        }
        assert(s@ =~= scoreboard_entry_spec(*g));
    } else if is_named(name, "40-Lines") {
        s.append("40-Lines: ");
        let d = format_duration(g.time);
        s.append(d.as_str());
        if !done {
            let (_, max) = g.limits.lines.unwrap();
            push_ratio(&mut s, g.lines as u64, max as u64, "lns");
        }
        assert(s@ =~= scoreboard_entry_spec(*g));
    } else if is_named(name, "Time Trial") {
        s.append("Time Trial: ");
        push_decimal(&mut s, g.lines as u64);
        s.append(" lns");
        if !done {
            let (_, max) = g.limits.time.unwrap();
            push_time_ratio(&mut s, g.time, max);
        }
        assert(s@ =~= scoreboard_entry_spec(*g));
    } else if is_named(name, "Master") {
        s.append("Master: ");
        push_decimal(&mut s, g.lines as u64);
        s.append("/");
        let (_, max) = g.limits.lines.unwrap();
        push_decimal(&mut s, max as u64);
        s.append(" lns");
        assert(s@ =~= scoreboard_entry_spec(*g));
    } else if is_named(name, "Puzzle") {
        s.append("Puzzle Mode: ");
        let d = format_duration(g.time);
        s.append(d.as_str());
        if !done {
            let (_, max) = g.limits.level.unwrap();
            push_ratio(&mut s, g.level as u64, max as u64, "lvl");
        }
        assert(s@ =~= scoreboard_entry_spec(*g));
    } else {
        s.append("Custom Mode: ");
        push_decimal(&mut s, g.lines as u64);
        s.append(" lns, ");
        push_decimal(&mut s, g.score as u64);
        s.append(" pts, ");
        let d = format_duration(g.time);
        s.append(d.as_str());
        let ghost before_limit = s@;
        let l = &g.limits;
        if let Some((_, max)) = l.time {
            push_time_ratio(&mut s, g.time, max);
        } else if let Some((_, max)) = l.pieces {
            let p = &g.pieces;
            let total: u64 = p[0] as u64 + p[1] as u64 + p[2] as u64 + p[3] as u64 + p[4] as u64 + p[5] as u64
                + p[6] as u64;
            push_ratio(&mut s, total, max as u64, "pcs");
        } else if let Some((_, max)) = l.lines {
            push_ratio(&mut s, g.lines as u64, max as u64, "lns");
        } else if let Some((_, max)) = l.level {
            push_ratio(&mut s, g.level as u64, max as u64, "lvl");
        } else if let Some((_, max)) = l.score {
            push_ratio(&mut s, g.score as u64, max as u64, "pts");
        }
        assert(s@ =~= before_limit + custom_limit_text(*g));
        assert(s@ =~= scoreboard_entry_spec(*g));
    }
    s
}

/// The tally of a game's actions as it is played: the spins (entry 0) and the clears of one
/// to four lines (entries 1 to 4), and the score bonus of every accolade.
pub struct GameTally {
    /// Spins, then clears of one, two, three and four lines.
    pub actions: [u32; 5],
    /// The score bonuses, in order.
    pub score_bonuses: Vec<u32>,
}

/// Whether an accolade can be counted without a count overflowing.
pub open spec fn accolade_countable(actions: Seq<u32>, spin: bool, lineclears: u32) -> bool {
    &&& (spin ==> actions[0] < u32::MAX)
    &&& (lineclears <= 4 ==> (if spin && lineclears == 0 { actions[0] + 1 } else { actions[lineclears as int] as int }) < u32::MAX)
}

/// The counts after an accolade: a spin counts as one, and a clear of up to four lines counts
/// under its number of lines (larger clears are not counted).
pub open spec fn counted_actions(actions: Seq<u32>, spin: bool, lineclears: u32) -> Seq<u32> {
    let a = if spin { actions.update(0, (actions[0] + 1) as u32) } else { actions };
    if lineclears <= 4 { a.update(lineclears as int, (a[lineclears as int] + 1) as u32) } else { a }
}

impl GameTally {
    /// A tally of nothing.
    pub fn new() -> (r: Self)
        ensures
            r.actions@ == seq![0u32, 0, 0, 0, 0],
            r.score_bonuses@.len() == 0,
    {
        let r = GameTally { actions: [0, 0, 0, 0, 0], score_bonuses: Vec::new() };
        assert(r.actions@ =~= seq![0u32, 0, 0, 0, 0]);
        r
    }

    /// Counts an accolade: its spin, its clear and its score bonus.
    pub fn record_accolade(&mut self, score_bonus: u32, spin: bool, lineclears: u32)
        requires
            accolade_countable(old(self).actions@, spin, lineclears),
        ensures
            final(self).actions@ == counted_actions(old(self).actions@, spin, lineclears),
            final(self).score_bonuses@ == old(self).score_bonuses@.push(score_bonus),
    {
        let ghost a0 = self.actions@;
        if spin {
            self.actions[0] = self.actions[0] + 1;
        }
        let ghost a1 = self.actions@;
        assert(a1 =~= if spin { a0.update(0, (a0[0] + 1) as u32) } else { a0 });
        if lineclears <= 4 {
            let i = lineclears as usize;
            self.actions[i] = self.actions[i] + 1;
        }
        assert(self.actions@ =~= counted_actions(a0, spin, lineclears));
        self.score_bonuses.push(score_bonus);
    }
}

/// `"{n} {word}"`, with a plural `s` unless `n` is one.
pub open spec fn count_text(n: u32, word: Seq<char>) -> Seq<char> {
    decimal(n as nat) + " "@ + word + if n != 1 { "s"@ } else { Seq::empty() }
}

/// The actions of a game as text: its singles, doubles, triples, quadruples and spins.
pub open spec fn actions_text_spec(a: Seq<u32>) -> Seq<char> {
    count_text(a[1], "Single"@) + ", "@ + count_text(a[2], "Double"@) + ", "@ + count_text(a[3], "Triple"@)
        + ", "@ + count_text(a[4], "Quadruple"@) + ", "@ + count_text(a[0], "Spin"@)
}

/// The name of a way to lose a game.
pub open spec fn game_over_name(e: GameOver) -> Seq<char> {
    match e {
        GameOver::LockOut => "LockOut"@,
        GameOver::BlockOut => "BlockOut"@,
        GameOver::ModeLimit => "ModeLimit"@,
        GameOver::Forfeit => "Forfeit"@,
    }
}

/// The title of the screen at a game's end: `"+ Game Completed! [{MODE}] +"` with the mode's
/// name in upper case, or `"- Game Over ({how}). [{mode}] -"`.
pub open spec fn game_ended_title_spec(g: FinishedGame) -> Seq<char> {
    match g.end {
        Some(Err(e)) => "- Game Over ("@ + game_over_name(e) + "). ["@ + g.mode_name@ + "] -"@,
        _ => "+ Game Completed! ["@ + g.mode_name@.map_values(|c: char| ascii_upper(c)) + "] +"@,
    }
}

/// The lines of the screen at a game's end: the title, the score, level, lines, pieces
/// played and time, and the actions.
pub open spec fn game_ended_lines_spec(g: FinishedGame, actions: Seq<u32>) -> Seq<Seq<char>> {
    seq![
        game_ended_title_spec(g),
        "Score: "@ + decimal(g.score as nat),
        "Level: "@ + decimal(g.level as nat),
        "Lines: "@ + decimal(g.lines as nat),
        "Tetrominos: "@ + decimal(pieces_total(g.pieces@) as nat),
        "Time: "@ + duration_text(g.time),
        actions_text_spec(actions),
    ]
}

fn push_count(s: &mut String, n: u32, word: &str)
    ensures
        final(s)@ == old(s)@ + count_text(n, word@),
{
    push_decimal(s, n as u64);
    s.append(" ");
    s.append(word);
    if n != 1 {
        s.append("s");
    }
    assert(s@ =~= old(s)@ + count_text(n, word@));
}

fn game_over_name_of(e: GameOver) -> (r: &'static str)
    ensures
        r@ == game_over_name(e),
{
    match e {
        GameOver::LockOut => "LockOut",
        GameOver::BlockOut => "BlockOut",
        GameOver::ModeLimit => "ModeLimit",
        GameOver::Forfeit => "Forfeit",
    }
}

/// The lines of the screen at a game's end, as [`game_ended_lines_spec`] gives them. (The
/// pieces played must total at most `u32::MAX`.)
pub fn game_ended_lines(g: &FinishedGame, actions: &[u32; 5]) -> (r: Vec<String>)
    requires
        pieces_total(g.pieces@) <= u32::MAX,
    ensures
        r@.len() == 7,
        forall|i: int| 0 <= i < 7 ==> #[trigger] r@[i]@ == game_ended_lines_spec(*g, actions@)[i],
{
    let mut title = String::new();
    match g.end {
        Some(Err(e)) => {
            title.append("- Game Over (");
            title.append(game_over_name_of(e));
            title.append("). [");
            title.append(g.mode_name.as_str());
            title.append("] -");
        },
        _ => {
            title.append("+ Game Completed! [");
            let upper = ascii_uppercase(g.mode_name.as_str());
            title.append(upper.as_str());
            title.append("] +");
        },
    }
    assert(title@ =~= game_ended_title_spec(*g));
    let mut score = String::new();
    score.append("Score: ");
    push_decimal(&mut score, g.score as u64);
    let mut level = String::new();
    level.append("Level: ");
    push_decimal(&mut level, g.level as u64);
    let mut lines = String::new();
    lines.append("Lines: ");
    push_decimal(&mut lines, g.lines as u64);
    let p = &g.pieces;
    let total: u64 = p[0] as u64 + p[1] as u64 + p[2] as u64 + p[3] as u64 + p[4] as u64 + p[5] as u64 + p[6] as u64;
    let mut pieces = String::new();
    pieces.append("Tetrominos: ");
    push_decimal(&mut pieces, total);
    let mut time = String::new();
    time.append("Time: ");
    let d = format_duration(g.time);
    time.append(d.as_str());
    let mut acts = String::new();
    push_count(&mut acts, actions[1], "Single");
    acts.append(", ");
    push_count(&mut acts, actions[2], "Double");
    acts.append(", ");
    push_count(&mut acts, actions[3], "Triple");
    acts.append(", ");
    push_count(&mut acts, actions[4], "Quadruple");
    acts.append(", ");
    push_count(&mut acts, actions[0], "Spin");
    assert(acts@ =~= actions_text_spec(actions@));
    let r = vec![title, score, level, lines, pieces, time, acts];
    proof {
        assert(score@ =~= game_ended_lines_spec(*g, actions@)[1]);
        assert(level@ =~= game_ended_lines_spec(*g, actions@)[2]);
        assert(lines@ =~= game_ended_lines_spec(*g, actions@)[3]);
        assert(pieces@ =~= game_ended_lines_spec(*g, actions@)[4]);
        assert(time@ =~= game_ended_lines_spec(*g, actions@)[5]);
    }
    r
}

/// How many games the scoreboard shows at once.
pub const SCORES_SHOWN: usize = 16;

/// The games shown when the scoreboard of `len` games is scrolled down by `scroll`: those
/// from `start` up to (without) `end`, and how many are left below them.
pub open spec fn scores_window_spec(len: usize, scroll: usize, height: usize) -> (usize, usize, usize) {
    let start = if scroll <= len { scroll } else { len };
    let end = if scroll + height <= len { (scroll + height) as usize } else { len };
    let left = if height + scroll <= len { (len - (height + scroll)) as usize } else { 0 };
    (start, end, left)
}

/// The games shown when the scoreboard is scrolled, as [`scores_window_spec`] gives them.
pub fn scores_window(len: usize, scroll: usize, height: usize) -> (r: (usize, usize, usize))
    requires
        scroll + height <= usize::MAX,
    ensures
        r == scores_window_spec(len, scroll, height),
{
    let start = if scroll <= len { scroll } else { len };
    let end = if scroll + height <= len { scroll + height } else { len };
    let left = len.saturating_sub(height + scroll);
    (start, end, left)
}

/// What the program does after a key on the scoreboard.
#[derive(Clone, Copy, PartialEq, Eq, Structural, Debug, Hash)]
pub enum ScoresAction {
    /// Stay on the scoreboard.
    Stay,
    /// Leave it.
    Back,
    /// Quit the program.
    Quit,
}

/// The scroll position and what to do after a key on the scoreboard of `len` games: up
/// scrolls up (not above the top), down scrolls down while games are left below the shown
/// ones.
pub open spec fn scores_step_spec(scroll: usize, len: usize, key: crate::menus::MenuKey) -> (usize, ScoresAction) {
    match key {
        crate::menus::MenuKey::Quit => (scroll, ScoresAction::Quit),
        crate::menus::MenuKey::Esc => (scroll, ScoresAction::Back),
        crate::menus::MenuKey::Up => (if scroll > 0 { (scroll - 1) as usize } else { 0 }, ScoresAction::Stay),
        crate::menus::MenuKey::Down => (
            if scores_window_spec(len, scroll, SCORES_SHOWN).2 > 0 { (scroll + 1) as usize } else { scroll },
            ScoresAction::Stay,
        ),
        _ => (scroll, ScoresAction::Stay),
    }
}

/// Takes a key on the scoreboard.
pub fn scores_step(scroll: usize, len: usize, key: crate::menus::MenuKey) -> (r: (usize, ScoresAction))
    requires
        scroll + SCORES_SHOWN <= usize::MAX,
    ensures
        r == scores_step_spec(scroll, len, key),
{
    match key {
        crate::menus::MenuKey::Quit => (scroll, ScoresAction::Quit),
        crate::menus::MenuKey::Esc => (scroll, ScoresAction::Back),
        crate::menus::MenuKey::Up => (scroll.saturating_sub(1), ScoresAction::Stay),
        crate::menus::MenuKey::Down => {
            let (_, _, left) = scores_window(len, scroll, SCORES_SHOWN);
            (if left > 0 { scroll + 1 } else { scroll }, ScoresAction::Stay)
        },
        _ => (scroll, ScoresAction::Stay),
    }
}

/// Inserts the game into the sorted scoreboard, after every game that may stand before it.
fn insert_sorted(v: &mut Vec<FinishedGame>, g: FinishedGame)
    requires
        sorted_by_scoreboard(old(v)@),
    ensures
        sorted_by_scoreboard(final(v)@),
        final(v)@.to_multiset() == old(v)@.to_multiset().insert(g),
        exists|k: int| #[trigger] inserted_after_equals(old(v)@, g, k, final(v)@),
{
    let mut k: usize = 0;
    let mut stop = false;
    while k < v.len() && !stop
        invariant
            k <= v@.len(),
            v@ == old(v)@,
            forall|i: int| 0 <= i < k ==> scoreboard_before(#[trigger] v@[i], g),
            stop ==> k < v@.len() && scoreboard_order(g, v@[k as int]) < 0,
        decreases v@.len() - k + (if stop { 0int } else { 1 }),
    {
        let o = compare_games(&g, &v[k]);
        if o < 0 {
            stop = true;
        } else {
            proof {
                lemma_scoreboard_order(g, v@[k as int], g);
            }
            k += 1;
        }
    }
    let ghost s = v@;
    proof {
        assert forall|j: int| k <= j < s.len() implies scoreboard_order(g, #[trigger] s[j]) < 0 by {
            if j > k {
                assert(scoreboard_before(s[k as int], s[j]));
                lemma_scoreboard_order(g, s[k as int], s[j]);
            }
        }
        vstd::seq_lib::to_multiset_insert(s, k as int, g);
    }
    v.insert(k, g);
    proof {
        let t = v@;
        assert(inserted_after_equals(s, g, k as int, t));
        assert(t =~= s.insert(k as int, g));
        assert forall|i: int, j: int| 0 <= i < j < t.len() implies scoreboard_before(#[trigger] t[i], #[trigger] t[j]) by {
            if j == k {
                assert(t[i] == s[i]);
            } else if i == k {
                assert(t[j] == s[j - 1]);
                lemma_scoreboard_order(g, s[j - 1], g);
            } else if i < k {
                if j < k {
                    assert(t[i] == s[i] && t[j] == s[j]);
                } else {
                    assert(t[i] == s[i] && t[j] == s[j - 1]);
                }
            } else {
                assert(t[i] == s[i - 1] && t[j] == s[j - 1]);
            }
        }
    }
}

/// Adds a finished game to the scoreboard and puts the scoreboard in order: the games are
/// those that were there and the new one, sorted by [`scoreboard_order`]. A scoreboard that
/// was in order keeps its order, the new game going after the games that rank equally.
pub fn record_finished_game(past: &mut Vec<FinishedGame>, g: FinishedGame)
    ensures
        final(past)@.to_multiset() == old(past)@.push(g).to_multiset(),
        sorted_by_scoreboard(final(past)@),
        sorted_by_scoreboard(old(past)@) ==> exists|k: int| #[trigger] inserted_after_equals(old(past)@, g, k, final(past)@),
{
    if is_sorted(past) {
        proof {
            old(past)@.to_multiset_ensures();
        }
        insert_sorted(past, g);
        return;
    }
    let mut rest: Vec<FinishedGame> = Vec::new();
    std::mem::swap(&mut rest, past);
    rest.push(g);
    let ghost all = rest@;
    proof {
        assert(all =~= old(past)@.push(g));
        assert(past@ =~= Seq::<FinishedGame>::empty());
        past@.to_multiset_ensures();
        vstd::multiset::lemma_multiset_empty_len(past@.to_multiset());
        assert(past@.to_multiset() =~= Multiset::empty());
        assert(past@.to_multiset().add(rest@.to_multiset()) =~= all.to_multiset());
    }
    while rest.len() > 0
        invariant
            sorted_by_scoreboard(past@),
            past@.to_multiset().add(rest@.to_multiset()) == all.to_multiset(),
            all == old(past)@.push(g),
        decreases rest@.len(),
    {
        let ghost r0 = rest@;
        let x = rest.remove(0);
        proof {
            r0.to_multiset_ensures();
            assert(r0.to_multiset() =~= rest@.to_multiset().insert(x));
        }
        let ghost p0 = past@;
        insert_sorted(past, x);
        assert(past@.to_multiset().add(rest@.to_multiset()) =~= p0.to_multiset().add(r0.to_multiset()));
    }
    proof {
        assert(rest@ =~= Seq::<FinishedGame>::empty());
        assert(past@.to_multiset().add(rest@.to_multiset()) =~= past@.to_multiset());
    }
}

} // verus!
