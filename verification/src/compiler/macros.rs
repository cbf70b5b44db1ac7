//! The `proposal_lifecycle` macro: the block of properties, file
//! attachments and an `execution { .. }` block that a proposal is declared
//! with, and the settings read from it.

use vstd::prelude::*;
use crate::compiler::common::word_is;
use crate::kv::StringMap;
use crate::ops::{ops_model, Op, OpModel};
use crate::compiler::flat::extend_ops;
use crate::numeric::{parse_i64_range, parse_i64_spec, parse_u64_range, parse_u64_spec};
use crate::text::{
    chars_of, ends_with, eq_ascii_nocase, find_char_from, find_from, lemma_back_char_bounds,
    lemma_find_from_bounds, lemma_fwd_char_bounds, lemma_strs_view, range_eq_ascii_nocase,
    skip_char, skip_char_back, starts_with, string_of_range, strs_view, trim, trim_bounds,
    trim_char, trim_end_char,
};

verus! {

/// Where the block scan stands after some lines: the properties and
/// attachments so far, the last closed execution block, whether an
/// execution block is open, and the lines collected in it.
pub struct BlockScan {
    pub props: Map<Seq<char>, Seq<char>>,
    pub atts: Map<Seq<char>, Seq<char>>,
    pub dsl: Seq<char>,
    pub in_exec: bool,
    pub pending: Seq<Seq<char>>,
}

/// The lines `ls` joined with `sep` between them (`[String]::join`).
pub open spec fn joined(ls: Seq<Seq<char>>, sep: Seq<char>) -> Seq<char>
    decreases ls.len(),
{
    if ls.len() == 0 {
        seq![]
    } else if ls.len() == 1 {
        ls[0]
    } else {
        joined(ls.drop_last(), sep) + sep + ls.last()
    }
}

/// The property names a proposal block accepts.
pub open spec fn is_property_key(k: Seq<char>) -> bool {
    k == "title"@ || k == "quorum"@ || k == "threshold"@ || k == "discussion_duration"@ || k
        == "expires_at"@
}

/// The scan before the first line.
pub open spec fn block_start() -> BlockScan {
    BlockScan { props: Map::empty(), atts: Map::empty(), dsl: seq![], in_exec: false, pending: seq![] }
}

/// A property or attachment line `t` (trimmed, outside an execution block).
pub open spec fn root_line(st: BlockScan, t: Seq<char>) -> Result<BlockScan, Seq<char>> {
    let k = find_from(t, ' ', 0);
    if k >= t.len() {
        Err("Invalid line in proposal block: "@ + t)
    } else {
        let key = t.take(k);
        let value = trim_char(trim(t.skip(k + 1)), '"');
        if is_property_key(key) {
            Ok(BlockScan { props: st.props.insert(key, value), atts: st.atts, dsl: st.dsl, in_exec: st.in_exec, pending: st.pending })
        } else if key == "attachment"@ {
            let k2 = find_from(value, ' ', 0);
            if k2 >= value.len() {
                Err("Invalid attachment format: "@ + t)
            } else {
                let name = trim_char(value.take(k2), '"');
                let path = trim_char(value.skip(k2 + 1), '"');
                if eq_ascii_nocase(name, "logic"@) {
                    Err("Cannot use 'logic' as a name for file attachment; it's reserved for the execution block."@)
                } else {
                    Ok(BlockScan { props: st.props, atts: st.atts.insert(name, path), dsl: st.dsl, in_exec: st.in_exec, pending: st.pending })
                }
            }
        } else {
            Err("Unknown property in proposal block: "@ + key)
        }
    }
}

/// One line of a proposal block.
pub open spec fn block_step(st: BlockScan, line: Seq<char>) -> Result<BlockScan, Seq<char>> {
    let t = trim(line);
    if t.len() == 0 || starts_with(t, "#"@) {
        Ok(st)
    } else if t == "execution {"@ {
        if st.in_exec {
            Err("Nested execution blocks are not allowed."@)
        } else {
            Ok(BlockScan { props: st.props, atts: st.atts, dsl: st.dsl, in_exec: true, pending: st.pending })
        }
    } else if t == "}"@ {
        if st.in_exec {
            Ok(BlockScan { props: st.props, atts: st.atts, dsl: joined(st.pending, "\n"@), in_exec: false, pending: seq![] })
        } else {
            Err("Unexpected closing brace '}'."@)
        }
    } else if st.in_exec {
        Ok(BlockScan { props: st.props, atts: st.atts, dsl: st.dsl, in_exec: true, pending: st.pending.push(t) })
    } else {
        root_line(st, t)
    }
}

/// The scan after the first `n` lines, or the first error.
pub open spec fn block_run(ls: Seq<Seq<char>>, n: int) -> Result<BlockScan, Seq<char>>
    decreases n,
{
    if n <= 0 {
        Ok(block_start())
    } else {
        match block_run(ls, n - 1) {
            Ok(st) => block_step(st, ls[n - 1]),
            Err(e) => Err(e),
        }
    }
}

/// What a proposal block declares: its properties, its attachments (name to
/// file path) and the text of its execution block.
pub open spec fn block_outcome(ls: Seq<Seq<char>>) -> Result<
    (Map<Seq<char>, Seq<char>>, Map<Seq<char>, Seq<char>>, Seq<char>),
    Seq<char>,
> {
    match block_run(ls, ls.len() as int) {
        Ok(st) => if st.in_exec {
            Err("Unclosed execution block."@)
        } else {
            Ok((st.props, st.atts, st.dsl))
        },
        Err(e) => Err(e),
    }
}

/// The bounds of `trim_char(s[lo..hi], c)` within `s`.
fn trim_char_bounds(s: &[char], lo: usize, hi: usize, c: char) -> (r: (usize, usize))
    requires
        lo <= hi <= s@.len(),
    ensures
        lo <= r.0 <= r.1 <= hi,
        s@.subrange(r.0 as int, r.1 as int) == trim_char(s@.subrange(lo as int, hi as int), c),
{
    let v = crate::text::sub_chars(s, lo, hi);
    proof {
        lemma_fwd_char_bounds(v@, c, 0);
    }
    let a = skip_char(v.as_slice(), c, 0);
    proof {
        lemma_back_char_bounds(v@, c, v@.len() as int, a as int);
    }
    let b = skip_char_back(v.as_slice(), c, v.len(), a);
    assert(s@.subrange(lo + a, lo + b) =~= v@.subrange(a as int, b as int));
    (lo + a, lo + b)
}

/// `ls` joined with line breaks.
fn join_lines(ls: &Vec<String>) -> (r: String)
    ensures
        r@ == joined(strs_view(ls@), "\n"@),
{
    proof {
        lemma_strs_view(ls@);
        reveal_strlit("\n");
    }
    let ghost v = strs_view(ls@);
    if ls.len() == 0 {
        return String::new();
    }
    let mut r = ls[0].clone();
    assert(v.take(1).drop_last() =~= Seq::<Seq<char>>::empty());
    assert(joined(v.take(1), "\n"@) == v[0]);
    let mut i: usize = 1;
    while i < ls.len()
        invariant
            1 <= i <= ls@.len(),
            v == strs_view(ls@),
            v.len() == ls@.len(),
            r@ == joined(v.take(i as int), "\n"@),
        decreases ls@.len() - i,
    {
        assert(v.take(i + 1).drop_last() =~= v.take(i as int));
        assert(v[i as int] == ls@[i as int]@);
        r.append("\n");
        r.append(ls[i].as_str());
        assert(r@ =~= joined(v.take(i as int), "\n"@) + "\n"@ + v.take(i + 1).last());
        i = i + 1;
    }
    assert(v.take(i as int) =~= v);
    r
}

/// The executable state of a block scan.
struct BlockState {
    props: StringMap,
    atts: StringMap,
    dsl: String,
    in_exec: bool,
    pending: Vec<String>,
}

impl BlockState {
    spec fn model(&self) -> BlockScan {
        BlockScan {
            props: self.props@,
            atts: self.atts@,
            dsl: self.dsl@,
            in_exec: self.in_exec,
            pending: strs_view(self.pending@),
        }
    }

    spec fn wf(&self) -> bool {
        self.props.wf() && self.atts.wf()
    }

    fn new() -> (st: Self)
        ensures
            st.wf(),
            st.model() == block_start(),
    {
        let st = BlockState {
            props: StringMap::new(),
            atts: StringMap::new(),
            dsl: String::new(),
            in_exec: false,
            pending: Vec::new(),
        };
        assert(strs_view(st.pending@) =~= Seq::<Seq<char>>::empty());
        st
    }

    /// A property or attachment line `tv` (trimmed, outside an execution block).
    fn root_line(&mut self, tv: &[char]) -> (r: Result<(), String>)
        requires
            old(self).wf(),
        ensures
            final(self).wf(),
            match r {
                Ok(()) => root_line(old(self).model(), tv@) == Ok::<BlockScan, Seq<char>>(final(self).model()),
                Err(m) => root_line(old(self).model(), tv@) == Err::<BlockScan, Seq<char>>(m@),
            },
    {
        let ghost t = tv@;
        proof {
            lemma_find_from_bounds(t, ' ', 0);
        }
        let k = find_char_from(tv, ' ', 0);
        if k >= tv.len() {
            let mut m = String::from_str("Invalid line in proposal block: ");
            m.append(crate::text::string_of(tv).as_str());
            return Err(m);
        }
        let rest = crate::text::sub_chars(tv, k + 1, tv.len());
        assert(rest@ =~= t.skip(k + 1));
        let (a, b) = trim_bounds(rest.as_slice());
        let (va, vb) = trim_char_bounds(rest.as_slice(), a, b, '"');
        let value = string_of_range(rest.as_slice(), va, vb);
        let key = string_of_range(tv, 0, k);
        assert(key@ =~= t.take(k as int));
        let ghost vv = value@;
        assert(vv == trim_char(trim(t.skip(k + 1)), '"'));
        if word_is(tv, 0, k, "title") || word_is(tv, 0, k, "quorum") || word_is(tv, 0, k, "threshold")
            || word_is(tv, 0, k, "discussion_duration") || word_is(tv, 0, k, "expires_at") {
            self.props.insert(key.as_str(), value.as_str());
            return Ok(());
        }
        if word_is(tv, 0, k, "attachment") {
            let vc = chars_of(value.as_str());
            let vs = vc.as_slice();
            proof {
                lemma_find_from_bounds(vv, ' ', 0);
            }
            let k2 = find_char_from(vs, ' ', 0);
            if k2 >= vs.len() {
                let mut m = String::from_str("Invalid attachment format: ");
                m.append(crate::text::string_of(tv).as_str());
                return Err(m);
            }
            let (na, nb) = trim_char_bounds(vs, 0, k2, '"');
            let (pa, pb) = trim_char_bounds(vs, k2 + 1, vs.len(), '"');
            assert(vv.take(k2 as int) =~= vv.subrange(0, k2 as int));
            assert(vv.skip(k2 + 1) =~= vv.subrange(k2 + 1, vv.len() as int));
            let logic = chars_of("logic");
            if range_eq_ascii_nocase(vs, na, nb, logic.as_slice()) {
                return Err(
                    String::from_str(
                        "Cannot use 'logic' as a name for file attachment; it's reserved for the execution block.",
                    ),
                );
            }
            let name = string_of_range(vs, na, nb);
            let path = string_of_range(vs, pa, pb);
            self.atts.insert(name.as_str(), path.as_str());
            return Ok(());
        }
        let mut m = String::from_str("Unknown property in proposal block: ");
        m.append(key.as_str());
        Err(m)
    }

    /// One line of the block.
    fn step(&mut self, line: &str) -> (r: Result<(), String>)
        requires
            old(self).wf(),
        ensures
            final(self).wf(),
            match r {
                Ok(()) => block_step(old(self).model(), line@) == Ok::<BlockScan, Seq<char>>(final(self).model()),
                Err(m) => block_step(old(self).model(), line@) == Err::<BlockScan, Seq<char>>(m@),
            },
    {
        let cs = chars_of(line);
        let s = cs.as_slice();
        let (lo, hi) = trim_bounds(s);
        let ghost t = trim(line@);
        assert(s@.subrange(lo as int, hi as int) == t);
        proof {
            reveal_strlit("#");
            if t.len() > 0 {
                assert(t.subrange(0, 1)[0] == t[0]);
                if t[0] == '#' {
                    assert(t.subrange(0, 1) =~= "#"@);
                }
            }
        }
        if hi == lo || s[lo] == '#' {
            return Ok(());
        }
        if word_is(s, lo, hi, "execution {") {
            if self.in_exec {
                return Err(String::from_str("Nested execution blocks are not allowed."));
            }
            self.in_exec = true;
            return Ok(());
        }
        if word_is(s, lo, hi, "}") {
            if !self.in_exec {
                return Err(String::from_str("Unexpected closing brace '}'."));
            }
            self.in_exec = false;
            self.dsl = join_lines(&self.pending);
            self.pending = Vec::new();
            assert(strs_view(self.pending@) =~= Seq::<Seq<char>>::empty());
            return Ok(());
        }
        if self.in_exec {
            let ghost before = self.pending@;
            self.pending.push(string_of_range(s, lo, hi));
            assert(strs_view(self.pending@) =~= strs_view(before).push(t));
            return Ok(());
        }
        let tv = crate::text::sub_chars(s, lo, hi);
        self.root_line(tv.as_slice())
    }
}

/// Splits the lines of a `proposal_lifecycle` block into its properties
/// (`title`, `quorum`, `threshold`, `discussion_duration`, `expires_at`),
/// its file attachments (`attachment name path`, name to path) and the text
/// of its `execution { .. }` block, whose trimmed lines are joined with line
/// breaks. Blank lines and lines that begin with `#` are skipped.
pub fn parse_proposal_block(lines: &[String]) -> (r: Result<(StringMap, StringMap, String), String>)
    ensures
        match r {
            Ok((p, a, d)) => p.wf() && a.wf() && block_outcome(strs_view(lines@)) == Ok::<
                (Map<Seq<char>, Seq<char>>, Map<Seq<char>, Seq<char>>, Seq<char>),
                Seq<char>,
            >((p@, a@, d@)),
            Err(m) => block_outcome(strs_view(lines@)) == Err::<
                (Map<Seq<char>, Seq<char>>, Map<Seq<char>, Seq<char>>, Seq<char>),
                Seq<char>,
            >(m@),
        },
{
    let ghost ls = strs_view(lines@);
    proof {
        lemma_strs_view(lines@);
    }
    let mut st = BlockState::new();
    let mut i: usize = 0;
    while i < lines.len()
        invariant
            ls == strs_view(lines@),
            ls.len() == lines@.len(),
            i <= lines@.len(),
            st.wf(),
            block_run(ls, i as int) == Ok::<BlockScan, Seq<char>>(st.model()),
        decreases lines@.len() - i,
    {
        assert(ls[i as int] == lines@[i as int]@);
        match st.step(lines[i].as_str()) {
            Ok(()) => {},
            Err(m) => {
                proof {
                    lemma_block_run_stays_failed(ls, i as int + 1, m@);
                }
                return Err(m);
            },
        }
        i = i + 1;
    }
    if st.in_exec {
        return Err(String::from_str("Unclosed execution block."));
    }
    Ok((st.props, st.atts, st.dsl))
}

/// Once a line fails, the scan stays failed with that error.
proof fn lemma_block_run_stays_failed(ls: Seq<Seq<char>>, n: int, e: Seq<char>)
    requires
        0 < n,
        block_run(ls, n) == Err::<BlockScan, Seq<char>>(e),
    ensures
        block_run(ls, ls.len() as int) == Err::<BlockScan, Seq<char>>(e) || ls.len() < n,
    decreases ls.len() - n,
{
    if n < ls.len() {
        lemma_block_run_stays_failed(ls, n + 1, e);
    }
}

/// The unit of a macro duration.
#[derive(Debug, Clone, Copy, PartialEq, Eq, Structural)]
pub enum TimeUnit {
    Minutes,
    Hours,
    Days,
}

/// A duration as a proposal block writes it: `30m`, `3h`, `2d`.
#[derive(Debug, Clone, Copy, PartialEq, Eq, Structural)]
pub struct MacroDuration {
    pub amount: i64,
    pub unit: TimeUnit,
}

/// The amount before a run of the unit letter `c`, with that unit.
pub open spec fn amount_in(t: Seq<char>, c: char, unit: TimeUnit) -> Option<MacroDuration> {
    match parse_i64_spec(trim_end_char(t, c)) {
        Some(n) => Some(MacroDuration { amount: n, unit }),
        None => None,
    }
}

/// The duration a text such as `2d`, `3h` or `30m` stands for; every
/// trailing copy of the unit letter is dropped before the (signed) amount is
/// read.
pub open spec fn macro_duration(s: Seq<char>) -> Option<MacroDuration> {
    let t = trim(s);
    if ends_with(t, "d"@) {
        amount_in(t, 'd', TimeUnit::Days)
    } else if ends_with(t, "h"@) {
        amount_in(t, 'h', TimeUnit::Hours)
    } else if ends_with(t, "m"@) {
        amount_in(t, 'm', TimeUnit::Minutes)
    } else {
        None
    }
}

/// Reads a duration such as `2d`, `3h` or `30m`; `None` for any other text.
pub fn parse_duration(duration_str: &str) -> (r: Option<MacroDuration>)
    ensures
        r == macro_duration(duration_str@),
{
    let cs = chars_of(duration_str);
    let s = cs.as_slice();
    let (lo, hi) = trim_bounds(s);
    let tv = crate::text::sub_chars(s, lo, hi);
    let t = tv.as_slice();
    let ghost g = trim(duration_str@);
    assert(t@ == g);
    proof {
        reveal_strlit("d");
        reveal_strlit("h");
        reveal_strlit("m");
        if g.len() > 0 {
            let last = g.subrange(g.len() - 1, g.len() as int);
            assert(last[0] == g[g.len() - 1]);
            if g[g.len() - 1] == 'd' {
                assert(last =~= "d"@);
            }
            if g[g.len() - 1] == 'h' {
                assert(last =~= "h"@);
            }
            if g[g.len() - 1] == 'm' {
                assert(last =~= "m"@);
            }
        }
    }
    if t.len() == 0 {
        return None;
    }
    let c = t[t.len() - 1];
    let unit = if c == 'd' {
        TimeUnit::Days
    } else if c == 'h' {
        TimeUnit::Hours
    } else if c == 'm' {
        TimeUnit::Minutes
    } else {
        return None;
    };
    proof {
        lemma_back_char_bounds(g, c, g.len() as int, 0);
    }
    let e = skip_char_back(t, c, t.len(), 0);
    assert(t@.subrange(0, e as int) =~= trim_end_char(g, c));
    match parse_i64_range(t, 0, e) {
        Some(n) => Some(MacroDuration { amount: n, unit }),
        None => None,
    }
}

/// What the lifecycle part of a proposal block needs: its title, quorum and
/// threshold, its discussion duration and its author.
pub struct LifecycleSettings {
    pub title: String,
    pub quorum: u64,
    pub threshold: u64,
    pub discussion_duration: Option<MacroDuration>,
    pub author: String,
}

/// The settings as values: title, quorum, threshold, discussion duration,
/// author.
pub type SettingsModel = (Seq<char>, u64, u64, Option<MacroDuration>, Seq<char>);

/// The settings the properties `p` give, or the first thing wrong with
/// them: a missing title, quorum or threshold (in that order), then a
/// quorum or threshold that is no unsigned integer. A duration that cannot
/// be read counts as none; the author is `macro_creator` unless one is
/// given.
pub open spec fn settings_of(p: Map<Seq<char>, Seq<char>>) -> Result<SettingsModel, Seq<char>> {
    if !p.dom().contains("title"@) {
        Err("Missing 'title' property"@)
    } else if !p.dom().contains("quorum"@) {
        Err("Missing 'quorum' property"@)
    } else if !p.dom().contains("threshold"@) {
        Err("Missing 'threshold' property"@)
    } else {
        match parse_u64_spec(p["quorum"@]) {
            None => Err("Invalid quorum value: "@ + p["quorum"@]),
            Some(q) => match parse_u64_spec(p["threshold"@]) {
                None => Err("Invalid threshold value: "@ + p["threshold"@]),
                Some(t) => Ok(
                    (
                        p["title"@],
                        q,
                        t,
                        if p.dom().contains("discussion_duration"@) {
                            macro_duration(p["discussion_duration"@])
                        } else {
                            None
                        },
                        if p.dom().contains("author"@) {
                            p["author"@]
                        } else {
                            "macro_creator"@
                        },
                    ),
                ),
            },
        }
    }
}

/// The settings as values.
pub open spec fn settings_model(s: LifecycleSettings) -> SettingsModel {
    (s.title@, s.quorum, s.threshold, s.discussion_duration, s.author@)
}

/// Reads the lifecycle settings from the properties of a proposal block.
pub fn lifecycle_settings(properties: &StringMap) -> (r: Result<LifecycleSettings, String>)
    requires
        properties.wf(),
    ensures
        match r {
            Ok(s) => settings_of(properties@) == Ok::<SettingsModel, Seq<char>>(settings_model(s)),
            Err(m) => settings_of(properties@) == Err::<SettingsModel, Seq<char>>(m@),
        },
{
    proof {
        reveal_strlit("title");
        reveal_strlit("quorum");
        reveal_strlit("threshold");
    }
    let title = match properties.get("title") {
        Some(t) => t.clone(),
        None => {
            return Err(String::from_str("Missing 'title' property"));
        },
    };
    let quorum_str = match properties.get("quorum") {
        Some(q) => q,
        None => {
            return Err(String::from_str("Missing 'quorum' property"));
        },
    };
    let threshold_str = match properties.get("threshold") {
        Some(t) => t,
        None => {
            return Err(String::from_str("Missing 'threshold' property"));
        },
    };
    let qc = chars_of(quorum_str.as_str());
    let quorum = match parse_u64_range(qc.as_slice(), 0, qc.len()) {
        Some(q) => q,
        None => {
            let mut m = String::from_str("Invalid quorum value: ");
            m.append(quorum_str.as_str());
            assert(qc@.subrange(0, qc@.len() as int) =~= qc@);
            return Err(m);
        },
    };
    assert(qc@.subrange(0, qc@.len() as int) =~= qc@);
    let tc = chars_of(threshold_str.as_str());
    assert(tc@.subrange(0, tc@.len() as int) =~= tc@);
    let threshold = match parse_u64_range(tc.as_slice(), 0, tc.len()) {
        Some(t) => t,
        None => {
            let mut m = String::from_str("Invalid threshold value: ");
            m.append(threshold_str.as_str());
            return Err(m);
        },
    };
    let discussion_duration = match properties.get("discussion_duration") {
        Some(d) => parse_duration(d.as_str()),
        None => None,
    };
    let author = match properties.get("author") {
        Some(a) => a.clone(),
        None => String::from_str("macro_creator"),
    };
    Ok(LifecycleSettings { title, quorum, threshold, discussion_duration, author })
}

/// What a character turns into inside a quoted DSL string: `\` and `"`
/// get a `\` before them.
pub open spec fn escape_char(c: char) -> Seq<char> {
    if c == '\\' {
        seq!['\\', '\\']
    } else if c == '"' {
        seq!['\\', '"']
    } else {
        seq![c]
    }
}

/// `s` made safe to stand between double quotes in DSL text
/// (`s.replace("\\", "\\\\").replace("\"", "\\\"")`).
pub open spec fn escaped(s: Seq<char>) -> Seq<char>
    decreases s.len(),
{
    if s.len() == 0 {
        seq![]
    } else {
        escaped(s.drop_last()) + escape_char(s.last())
    }
}

/// Escapes `\` and `"` in `s` with a `\` before each.
pub fn escape_for_dsl(s: &str) -> (r: String)
    ensures
        r@ == escaped(s@),
{
    let cs = chars_of(s);
    let mut out: Vec<char> = Vec::new();
    let mut i: usize = 0;
    while i < cs.len()
        invariant
            cs@ == s@,
            i <= cs@.len(),
            out@ == escaped(cs@.take(i as int)),
        decreases cs@.len() - i,
    {
        assert(cs@.take(i + 1).drop_last() =~= cs@.take(i as int));
        let c = cs[i];
        if c == '\\' {
            out.push('\\');
            out.push('\\');
        } else if c == '"' {
            out.push('\\');
            out.push('"');
        } else {
            out.push(c);
        }
        assert(out@ =~= escaped(cs@.take(i as int)) + escape_char(c));
        i = i + 1;
    }
    assert(cs@.take(i as int) =~= cs@);
    crate::text::string_of(out.as_slice())
}

/// What `char::is_alphanumeric` returns for `c`: whether it is alphabetic
/// or numeric by the Unicode tables.
pub uninterp spec fn alphanumeric(c: char) -> bool;

/// `char::is_alphanumeric`; its result is named [`alphanumeric`].
#[verifier::external_body]
fn is_alphanumeric(c: char) -> (b: bool)
    ensures
        b == alphanumeric(c),
{
    c.is_alphanumeric()
}

/// The character that stands for `c` in a storage key.
pub open spec fn key_char(c: char) -> char {
    if alphanumeric(c) || c == '-' || c == '_' {
        c
    } else {
        '_'
    }
}

/// An attachment name made fit for a storage key: every character that is
/// neither alphanumeric nor `-` nor `_` becomes `_`.
pub fn sanitize_attachment_name(name: &str) -> (r: String)
    ensures
        r@ == name@.map_values(|c: char| key_char(c)),
{
    let cs = chars_of(name);
    let mut out: Vec<char> = Vec::new();
    let mut i: usize = 0;
    while i < cs.len()
        invariant
            cs@ == name@,
            i <= cs@.len(),
            out@ =~= cs@.take(i as int).map_values(|c: char| key_char(c)),
        decreases cs@.len() - i,
    {
        let c = cs[i];
        if is_alphanumeric(c) || c == '-' || c == '_' {
            out.push(c);
        } else {
            out.push('_');
        }
        assert(cs@.take(i + 1).map_values(|c: char| key_char(c)) =~= cs@.take(i as int).map_values(
            |c: char| key_char(c),
        ).push(key_char(c)));
        i = i + 1;
    }
    assert(cs@.take(i as int) =~= cs@);
    crate::text::string_of(out.as_slice())
}

/// The DSL line that stores `content` under `key`:
/// `StoreP "<key>" "<escaped content>"`.
pub fn store_line(key: &str, content: &str) -> (r: String)
    ensures
        r@ == "StoreP \""@ + key@ + "\" \""@ + escaped(content@) + "\""@,
{
    let mut r = String::from_str("StoreP \"");
    r.append(key);
    r.append("\" \"");
    let e = escape_for_dsl(content);
    r.append(e.as_str());
    r.append("\"");
    r
}

/// The DSL line that stores `content` under `key` in `namespace`:
/// `StoreP "<namespace>"/"<key>" "<escaped content>"`.
pub fn store_line_in(namespace: &str, key: &str, content: &str) -> (r: String)
    ensures
        r@ == "StoreP \""@ + namespace@ + "\"/\""@ + key@ + "\" \""@ + escaped(content@) + "\""@,
{
    let mut r = String::from_str("StoreP \"");
    r.append(namespace);
    r.append("\"/\"");
    r.append(key);
    r.append("\" \"");
    let e = escape_for_dsl(content);
    r.append(e.as_str());
    r.append("\"");
    r
}

/// The parsed block of a macro invocation: `proposal_lifecycle` is the one
/// macro there is; any other name is refused with "Unknown macro: <name>".
pub fn macro_expand(macro_name: &str, lines: &[String]) -> (r: Result<(StringMap, StringMap, String), String>)
    ensures
        macro_name@ == "proposal_lifecycle"@ ==> match r {
            Ok((p, a, d)) => p.wf() && a.wf() && block_outcome(strs_view(lines@)) == Ok::<
                (Map<Seq<char>, Seq<char>>, Map<Seq<char>, Seq<char>>, Seq<char>),
                Seq<char>,
            >((p@, a@, d@)),
            Err(m) => block_outcome(strs_view(lines@)) == Err::<
                (Map<Seq<char>, Seq<char>>, Map<Seq<char>, Seq<char>>, Seq<char>),
                Seq<char>,
            >(m@),
        },
        macro_name@ != "proposal_lifecycle"@ ==> (r matches Err(m) && m@ == "Unknown macro: "@ + macro_name@),
{
    if crate::text::str_eq(macro_name, "proposal_lifecycle") {
        parse_proposal_block(lines)
    } else {
        let mut m = String::from_str("Unknown macro: ");
        m.append(macro_name);
        Err(m)
    }
}

/// Milliseconds in one unit of a macro duration.
pub open spec fn unit_millis(u: TimeUnit) -> int {
    match u {
        TimeUnit::Minutes => 60000,
        TimeUnit::Hours => 3600000,
        TimeUnit::Days => 86400000,
    }
}

/// A macro duration in milliseconds, unless that does not fit in an `i64`.
pub open spec fn duration_millis_spec(d: MacroDuration) -> Option<i64> {
    let m = d.amount * unit_millis(d.unit);
    if i64::MIN <= m <= i64::MAX {
        Some(m as i64)
    } else {
        None
    }
}

/// A macro duration in milliseconds (the discussion period of a proposal);
/// none when it does not fit in an `i64`.
pub fn duration_millis(d: MacroDuration) -> (r: Option<i64>)
    ensures
        r == duration_millis_spec(d),
{
    let unit: i64 = match d.unit {
        TimeUnit::Minutes => 60000,
        TimeUnit::Hours => 3600000,
        TimeUnit::Days => 86400000,
    };
    d.amount.checked_mul(unit)
}

/// The key a proposal's lifecycle record is stored under:
/// `governance/proposals/<id>/lifecycle`.
pub fn lifecycle_key(proposal_id: &str) -> (r: String)
    ensures
        r@ == "governance/proposals/"@ + proposal_id@ + "/lifecycle"@,
{
    let mut r = String::from_str("governance/proposals/");
    r.append(proposal_id);
    r.append("/lifecycle");
    r
}

/// The key an attachment of a proposal is stored under, in the
/// `governance` namespace: `proposals/<id>/attachments/<name>`, the name
/// made fit for a key.
pub fn attachment_key(proposal_id: &str, name: &str) -> (r: String)
    ensures
        r@ == "proposals/"@ + proposal_id@ + "/attachments/"@ + name@.map_values(|c: char| key_char(c)),
{
    let mut r = String::from_str("proposals/");
    r.append(proposal_id);
    r.append("/attachments/");
    let s = sanitize_attachment_name(name);
    r.append(s.as_str());
    r
}

/// What the attachments add to an expanded proposal: for each, in order,
/// the operations that store it and a note of where it came from.
pub open spec fn attachment_ops(atts: Seq<(Seq<char>, Seq<char>, Seq<OpModel>)>) -> Seq<OpModel>
    decreases atts.len(),
{
    if atts.len() == 0 {
        seq![]
    } else {
        let a = atts[atts.len() - 1];
        attachment_ops(atts.drop_last()) + a.2 + seq![OpModel::Emit("Stored attachment '"@ + a.0 + "' from "@ + a.1)]
    }
}

/// The operations a `proposal_lifecycle` block expands to: a note that the
/// proposal is being created, the storing of its lifecycle record, of each
/// attachment and of its execution logic when it has one, and a governance
/// event that it was created.
pub open spec fn lifecycle_ops_spec(
    id: Seq<char>,
    title: Seq<char>,
    record: Seq<OpModel>,
    atts: Seq<(Seq<char>, Seq<char>, Seq<OpModel>)>,
    logic: Option<Seq<OpModel>>,
) -> Seq<OpModel> {
    seq![OpModel::Emit("Creating proposal "@ + id + "..."@)] + record + attachment_ops(atts) + match logic {
        Some(l) => l + seq![
            OpModel::EmitEvent {
                category: "governance"@,
                message: "Stored execution logic for proposal "@ + id,
            },
        ],
        None => seq![],
    } + seq![
        OpModel::EmitEvent {
            category: "governance"@,
            message: "Proposal "@ + id + " ('"@ + title + "') created."@,
        },
    ]
}

/// The values of the attachments: name, file path and storing operations.
pub open spec fn atts_model(v: Seq<(String, String, Vec<Op>)>) -> Seq<(Seq<char>, Seq<char>, Seq<OpModel>)> {
    v.map_values(|a: (String, String, Vec<Op>)| (a.0@, a.1@, ops_model(a.2@)))
}

/// Assembles the operations of an expanded `proposal_lifecycle` block from
/// the operations that store its parts ([`lifecycle_ops_spec`]).
pub fn lifecycle_ops(
    proposal_id: &str,
    title: &str,
    record: Vec<Op>,
    attachments: Vec<(String, String, Vec<Op>)>,
    logic: Option<Vec<Op>>,
) -> (r: Vec<Op>)
    ensures
        ops_model(r@) == lifecycle_ops_spec(
            proposal_id@,
            title@,
            ops_model(record@),
            atts_model(attachments@),
            match logic {
                Some(l) => Some(ops_model(l@)),
                None => None,
            },
        ),
{
    let ghost am = atts_model(attachments@);
    let mut ops: Vec<Op> = Vec::new();
    let mut m = String::from_str("Creating proposal ");
    m.append(proposal_id);
    m.append("...");
    ops.push(Op::Emit(m));
    assert(ops_model(ops@) =~= seq![OpModel::Emit("Creating proposal "@ + proposal_id@ + "..."@)]);
    let ghost head = ops_model(ops@);
    extend_ops(&mut ops, record);
    let ghost base = ops_model(ops@);
    let mut rest = attachments;
    let ghost all = rest@;
    let n = rest.len();
    let mut i: usize = 0;
    assert(am.take(0) =~= Seq::<(Seq<char>, Seq<char>, Seq<OpModel>)>::empty());
    while rest.len() > 0
        invariant
            am == atts_model(all),
            all.len() == n,
            i + rest@.len() == all.len(),
            rest@ == all.skip(i as int),
            ops_model(ops@) == base + attachment_ops(am.take(i as int)),
        decreases rest@.len(),
    {
        let (name, path, store) = rest.remove(0);
        let ghost a = am[i as int];
        assert(all[i as int] == all.skip(i as int)[0]);
        assert(a == (name@, path@, ops_model(store@)));
        assert(am.take(i + 1).drop_last() =~= am.take(i as int));
        extend_ops(&mut ops, store);
        let mut note = String::from_str("Stored attachment '");
        note.append(name.as_str());
        note.append("' from ");
        note.append(path.as_str());
        let ghost before = ops@;
        ops.push(Op::Emit(note));
        proof {
            crate::ops::lemma_ops_model_push(before, Op::Emit(note));
        }
        assert(rest@ =~= all.skip(i + 1));
        i += 1;
    }
    assert(am.take(i as int) =~= am);
    match logic {
        Some(l) => {
            extend_ops(&mut ops, l);
            let mut msg = String::from_str("Stored execution logic for proposal ");
            msg.append(proposal_id);
            let ghost before = ops@;
            let ev = Op::EmitEvent { category: String::from_str("governance"), message: msg };
            ops.push(ev);
            proof {
                crate::ops::lemma_ops_model_push(before, ev);
            }
        },
        None => {},
    }
    let mut fin = String::from_str("Proposal ");
    fin.append(proposal_id);
    fin.append(" ('");
    fin.append(title);
    fin.append("') created.");
    let ghost before = ops@;
    let ev = Op::EmitEvent { category: String::from_str("governance"), message: fin };
    ops.push(ev);
    proof {
        crate::ops::lemma_ops_model_push(before, ev);
    }
    ops
}

} // verus!
