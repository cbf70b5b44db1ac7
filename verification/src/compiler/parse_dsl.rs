//! Parsing DSL source that may carry governance settings: `governance { .. }`
//! blocks, named `template "name" { .. }` blocks, and `governance use
//! "name"` lines that take a template's settings.

use vstd::prelude::*;
use crate::compiler::common::{get_indent, pos_at, range_begins, range_finishes, word_is};
use crate::compiler::grammar::{mk_pos, sp_line, sp_stmt, Outcome};
use crate::compiler::line_parser::{parse_line, parse_statement_block};
use crate::compiler::{err_model, CompilerError, ErrorModel, SourcePosition};
use crate::numeric::{dec_str, decimal_string, float_literal_ok, is_float_literal, parse_i64_range, parse_i64_spec};
use crate::ops::{lemma_ops_model_empty, ops_model, push_op, push_unless_nop, strings_model, Op, OpModel};
use crate::text::{
    chars_of, ends_with, indent_of, lemma_strs_view, lemma_trim_bounds, lines_of, split_lines, starts_with,
    string_of_range, strs_view, token_spans, tokens, trim, trim_bounds, span_texts, spans_inside, utf8_width,
};

verus! {

/// The unit of a governance duration.
#[derive(Debug, Clone, Copy, PartialEq, Eq, Structural)]
pub enum DurationUnit {
    Hours,
    Days,
    Weeks,
}

/// A governance duration as the source writes it: an amount of hours, days
/// or weeks (`72h`, `14d`, `2w`).
#[derive(Debug, Clone, Copy, PartialEq, Eq, Structural)]
pub struct GovDuration {
    pub amount: i64,
    pub unit: DurationUnit,
}

/// The governance settings of a proposal that the source declares. The
/// quorum and vote thresholds are fractions, kept as the literal text the
/// source gives (text that `f64::from_str` accepts).
#[derive(Debug)]
pub struct LifecycleConfig {
    pub quorum: Option<String>,
    pub threshold: Option<String>,
    pub min_deliberation: Option<GovDuration>,
    pub expires_in: Option<GovDuration>,
    pub required_roles: Vec<String>,
}

/// The value of a [`LifecycleConfig`].
pub struct ConfigModel {
    pub quorum: Option<Seq<char>>,
    pub threshold: Option<Seq<char>>,
    pub min_deliberation: Option<GovDuration>,
    pub expires_in: Option<GovDuration>,
    pub required_roles: Seq<Seq<char>>,
}

pub open spec fn opt_text(o: Option<String>) -> Option<Seq<char>> {
    match o {
        Some(s) => Some(s@),
        None => None,
    }
}

pub open spec fn config_model(c: LifecycleConfig) -> ConfigModel {
    ConfigModel {
        quorum: opt_text(c.quorum),
        threshold: opt_text(c.threshold),
        min_deliberation: c.min_deliberation,
        expires_in: c.expires_in,
        required_roles: strings_model(c.required_roles@),
    }
}

/// No settings.
pub open spec fn empty_config() -> ConfigModel {
    ConfigModel { quorum: None, threshold: None, min_deliberation: None, expires_in: None, required_roles: seq![] }
}

/// `a` with what it lacks taken from `b`: each setting that `a` has not
/// set, and the roles when `a` has none.
pub open spec fn merged(a: ConfigModel, b: ConfigModel) -> ConfigModel {
    ConfigModel {
        quorum: if a.quorum is None { b.quorum } else { a.quorum },
        threshold: if a.threshold is None { b.threshold } else { a.threshold },
        min_deliberation: if a.min_deliberation is None { b.min_deliberation } else { a.min_deliberation },
        expires_in: if a.expires_in is None { b.expires_in } else { a.expires_in },
        required_roles: if a.required_roles.len() == 0 { b.required_roles } else { a.required_roles },
    }
}

impl Default for LifecycleConfig {
    fn default() -> (c: Self)
        ensures
            config_model(c) == empty_config(),
    {
        let c = LifecycleConfig {
            quorum: None,
            threshold: None,
            min_deliberation: None,
            expires_in: None,
            required_roles: Vec::new(),
        };
        assert(strings_model(c.required_roles@) =~= Seq::<Seq<char>>::empty());
        c
    }
}

fn copy_text(o: &Option<String>) -> (r: Option<String>)
    ensures
        opt_text(r) == opt_text(*o),
{
    match o {
        Some(s) => Some(s.clone()),
        None => None,
    }
}

fn copy_strings(v: &Vec<String>) -> (r: Vec<String>)
    ensures
        strings_model(r@) == strings_model(v@),
{
    let r = v.clone();
    assert(strings_model(r@) =~= strings_model(v@)) by {
        assert forall|k: int| 0 <= k < v@.len() implies r@[k] == v@[k] by {
            assert(vstd::pervasive::cloned::<String>(v@[k], r@[k]));
        }
    }
    r
}

impl LifecycleConfig {
    /// A copy of the settings.
    pub fn copy(&self) -> (c: Self)
        ensures
            config_model(c) == config_model(*self),
    {
        LifecycleConfig {
            quorum: copy_text(&self.quorum),
            threshold: copy_text(&self.threshold),
            min_deliberation: self.min_deliberation,
            expires_in: self.expires_in,
            required_roles: copy_strings(&self.required_roles),
        }
    }

    /// Takes from `other` each setting that this one has not set, and its
    /// roles when this one has none; what is set stays.
    pub fn merge_from(&mut self, other: &Self)
        ensures
            config_model(*final(self)) == merged(config_model(*old(self)), config_model(*other)),
    {
        if self.quorum.is_none() {
            self.quorum = copy_text(&other.quorum);
        }
        if self.threshold.is_none() {
            self.threshold = copy_text(&other.threshold);
        }
        if self.min_deliberation.is_none() {
            self.min_deliberation = other.min_deliberation;
        }
        if self.expires_in.is_none() {
            self.expires_in = other.expires_in;
        }
        if self.required_roles.len() == 0 {
            self.required_roles = copy_strings(&other.required_roles);
        }
    }
}

/// A word without its surrounding double quotes, when it has them; `Panic`
/// for a lone `"`, whose slicing fails.
pub open spec fn unquoted(p: Seq<char>) -> Outcome<Seq<char>> {
    if p.len() >= 1 && p[0] == '"' && p[p.len() - 1] == '"' {
        if p.len() < 2 {
            Outcome::Panic
        } else {
            Outcome::Done(p.subrange(1, p.len() - 1))
        }
    } else {
        Outcome::Done(p)
    }
}

/// A duration such as `72h`, `14d` or `2w`. The number is read before the
/// unit is checked; a last character of more than one byte cannot be cut
/// off (`Panic`).
pub open spec fn duration_spec(s: Seq<char>, pos: SourcePosition) -> Outcome<GovDuration> {
    let t = trim(s);
    if t.len() == 0 {
        Outcome::Fail(ErrorModel::SyntaxError("Empty duration string"@, pos))
    } else {
        let c = t[t.len() - 1];
        if utf8_width(c) != 1 {
            Outcome::Panic
        } else {
            let v = t.drop_last();
            match parse_i64_spec(v) {
                None => Outcome::Fail(ErrorModel::SyntaxError("Invalid duration value: "@ + v, pos)),
                Some(n) => if c == 'h' {
                    Outcome::Done(GovDuration { amount: n, unit: DurationUnit::Hours })
                } else if c == 'd' {
                    Outcome::Done(GovDuration { amount: n, unit: DurationUnit::Days })
                } else if c == 'w' {
                    Outcome::Done(GovDuration { amount: n, unit: DurationUnit::Weeks })
                } else {
                    Outcome::Fail(ErrorModel::SyntaxError("Unknown duration unit: "@ + seq![c], pos))
                },
            }
        }
    }
}

/// A setting line inside a governance or template block, applied to `c`.
pub open spec fn command_spec(p: Seq<Seq<char>>, pos: SourcePosition, c: ConfigModel) -> Outcome<ConfigModel> {
    let cmd = p[0];
    if cmd == "quorumthreshold"@ {
        if p.len() < 2 {
            Outcome::Fail(ErrorModel::MissingParameter(cmd, pos.line, pos.column))
        } else if is_float_literal(p[1]) {
            Outcome::Done(ConfigModel { quorum: Some(p[1]), ..c })
        } else {
            Outcome::Fail(ErrorModel::InvalidParameterValue(cmd, pos.line, pos.column))
        }
    } else if cmd == "votethreshold"@ {
        if p.len() < 2 {
            Outcome::Fail(ErrorModel::MissingParameter(cmd, pos.line, pos.column))
        } else if is_float_literal(p[1]) {
            Outcome::Done(ConfigModel { threshold: Some(p[1]), ..c })
        } else {
            Outcome::Fail(ErrorModel::InvalidParameterValue(cmd, pos.line, pos.column))
        }
    } else if cmd == "mindeliberation"@ {
        if p.len() < 2 {
            Outcome::Fail(ErrorModel::MissingParameter(cmd, pos.line, pos.column))
        } else {
            match duration_spec(p[1], pos) {
                Outcome::Done(d) => Outcome::Done(ConfigModel { min_deliberation: Some(d), ..c }),
                Outcome::Fail(e) => Outcome::Fail(e),
                Outcome::Panic => Outcome::Panic,
            }
        }
    } else if cmd == "expiresin"@ {
        if p.len() < 2 {
            Outcome::Fail(ErrorModel::MissingParameter(cmd, pos.line, pos.column))
        } else {
            match duration_spec(p[1], pos) {
                Outcome::Done(d) => Outcome::Done(ConfigModel { expires_in: Some(d), ..c }),
                Outcome::Fail(e) => Outcome::Fail(e),
                Outcome::Panic => Outcome::Panic,
            }
        }
    } else if cmd == "require_role"@ {
        if p.len() < 2 {
            Outcome::Fail(ErrorModel::MissingParameter(cmd, pos.line, pos.column))
        } else {
            match unquoted(p[1]) {
                Outcome::Done(r) => Outcome::Done(ConfigModel { required_roles: c.required_roles.push(r), ..c }),
                Outcome::Fail(e) => Outcome::Fail(e),
                Outcome::Panic => Outcome::Panic,
            }
        }
    } else {
        Outcome::Fail(ErrorModel::UnknownCommand(cmd, pos.line, pos.column))
    }
}

/// The settings of the template named `name` that was stored last.
pub open spec fn template_named(ts: Seq<(Seq<char>, ConfigModel)>, name: Seq<char>) -> Option<ConfigModel>
    decreases ts.len(),
{
    if ts.len() == 0 {
        None
    } else if ts[ts.len() - 1].0 == name {
        Some(ts[ts.len() - 1].1)
    } else {
        template_named(ts.drop_last(), name)
    }
}

/// Where the parser stands: the operations so far, the settings so far,
/// whether it is inside a governance block and inside a template block, the
/// template being read (name and settings), and the templates stored.
pub struct GovState {
    pub ops: Seq<OpModel>,
    pub config: ConfigModel,
    pub in_governance: bool,
    pub in_template: bool,
    pub template_name: Seq<char>,
    pub template: ConfigModel,
    pub templates: Seq<(Seq<char>, ConfigModel)>,
}

/// The state before the first line.
pub open spec fn gov_start() -> GovState {
    GovState {
        ops: seq![],
        config: empty_config(),
        in_governance: false,
        in_template: false,
        template_name: seq![],
        template: empty_config(),
        templates: seq![],
    }
}

/// The outcome of parsing the lines from `i` on, from state `st`.
pub open spec fn gov_program(ls: Seq<Seq<char>>, i: int, st: GovState) -> Outcome<(Seq<OpModel>, ConfigModel)>
    decreases ls.len() + 1 - i,
{
    if i < 0 {
        Outcome::Panic
    } else if i >= ls.len() {
        Outcome::Done((st.ops, st.config))
    } else {
        let l = ls[i];
        let t = trim(l);
        if t.len() == 0 {
            gov_program(ls, i + 1, st)
        } else {
            match mk_pos(i + 1, indent_of(l) + 1) {
                None => Outcome::Panic,
                Some(pos) => if starts_with(t, "template "@) && ends_with(t, " {"@) {
                    let p = tokens(t);
                    if p.len() < 3 {
                        Outcome::Fail(ErrorModel::SyntaxError("Invalid template definition at line "@ + dec_str(pos.line as nat), pos))
                    } else {
                        match unquoted(p[1]) {
                            Outcome::Done(n) => gov_program(
                                ls,
                                i + 1,
                                GovState { in_template: true, template_name: n, template: empty_config(), ..st },
                            ),
                            _ => Outcome::Panic,
                        }
                    }
                } else if st.in_template && t == "}"@ {
                    gov_program(
                        ls,
                        i + 1,
                        GovState { templates: st.templates.push((st.template_name, st.template)), in_template: false, ..st },
                    )
                } else if starts_with(t, "governance use "@) {
                    let p = tokens(t);
                    if p.len() < 3 {
                        Outcome::Fail(ErrorModel::SyntaxError("Invalid governance use directive at line "@ + dec_str(pos.line as nat), pos))
                    } else {
                        match unquoted(p[2]) {
                            Outcome::Done(n) => match template_named(st.templates, n) {
                                Some(tc) => gov_program(ls, i + 1, GovState { config: merged(st.config, tc), ..st }),
                                None => Outcome::Fail(ErrorModel::SyntaxError(
                                    "Unknown template '"@ + n + "' at line "@ + dec_str(pos.line as nat),
                                    pos,
                                )),
                            },
                            _ => Outcome::Panic,
                        }
                    }
                } else if t == "governance {"@ {
                    gov_program(ls, i + 1, GovState { in_governance: true, ..st })
                } else if st.in_governance && t == "}"@ {
                    gov_program(ls, i + 1, GovState { in_governance: false, ..st })
                } else if st.in_governance || st.in_template {
                    let p = tokens(t);
                    let target = if st.in_template { st.template } else { st.config };
                    match command_spec(p, pos, target) {
                        Outcome::Done(c) => if st.in_template {
                            gov_program(ls, i + 1, GovState { template: c, ..st })
                        } else {
                            gov_program(ls, i + 1, GovState { config: c, ..st })
                        },
                        Outcome::Fail(e) => Outcome::Fail(e),
                        Outcome::Panic => Outcome::Panic,
                    }
                } else if ends_with(t, ":"@) {
                    match sp_stmt(ls, i, pos, t) {
                        Outcome::Done((op, j)) => if i < j <= ls.len() {
                            gov_program(ls, j, GovState { ops: push_op(st.ops, op), ..st })
                        } else {
                            Outcome::Panic
                        },
                        Outcome::Fail(e) => Outcome::Fail(e),
                        Outcome::Panic => Outcome::Panic,
                    }
                } else {
                    match sp_line(l, pos) {
                        Outcome::Done(op) => gov_program(ls, i + 1, GovState { ops: push_op(st.ops, op), ..st }),
                        Outcome::Fail(e) => Outcome::Fail(e),
                        Outcome::Panic => Outcome::Panic,
                    }
                },
            }
        }
    }
}

/// What [`parse_dsl`] computes for the source text `src`.
pub open spec fn gov_parse_spec(src: Seq<char>) -> Outcome<(Seq<OpModel>, ConfigModel)> {
    gov_program(lines_of(src), 0, gov_start())
}

/// The settings of stored templates, as values.
pub open spec fn templates_model(v: Seq<(String, LifecycleConfig)>) -> Seq<(Seq<char>, ConfigModel)> {
    v.map_values(|p: (String, LifecycleConfig)| (p.0@, config_model(p.1)))
}

/// How an executable result stands to what the grammar says.
pub open spec fn gov_result(
    r: Result<(Vec<Op>, LifecycleConfig), CompilerError>,
    o: Outcome<(Seq<OpModel>, ConfigModel)>,
) -> bool {
    match r {
        Ok((ops, c)) => o == Outcome::Done((ops_model(ops@), config_model(c))),
        Err(e) => o == Outcome::<(Seq<OpModel>, ConfigModel)>::Fail(err_model(e)),
    }
}

/// `s[a..b]` without its surrounding double quotes, when it has them.
fn unquote(s: &[char], a: usize, b: usize) -> (r: Option<String>)
    requires
        a <= b <= s@.len(),
    ensures
        match unquoted(s@.subrange(a as int, b as int)) {
            Outcome::Done(x) => r matches Some(v) && v@ == x,
            _ => r is None,
        },
{
    let ghost p = s@.subrange(a as int, b as int);
    if b > a && s[a] == '"' && s[b - 1] == '"' {
        if b - a < 2 {
            return None;
        }
        let r = string_of_range(s, a + 1, b - 1);
        assert(r@ =~= p.subrange(1, p.len() - 1));
        Some(r)
    } else {
        Some(string_of_range(s, a, b))
    }
}

/// A duration such as `72h`, `14d` or `2w`, from `s[a..b]`.
fn parse_duration_range(s: &[char], a: usize, b: usize, pos: SourcePosition) -> (r: Result<GovDuration, CompilerError>)
    requires
        a <= b <= s@.len(),
        !(duration_spec(s@.subrange(a as int, b as int), pos) is Panic),
    ensures
        match r {
            Ok(d) => duration_spec(s@.subrange(a as int, b as int), pos) == Outcome::Done(d),
            Err(e) => duration_spec(s@.subrange(a as int, b as int), pos) == Outcome::<GovDuration>::Fail(err_model(e)),
        },
{
    let v = crate::text::sub_chars(s, a, b);
    let (lo, hi) = trim_bounds(v.as_slice());
    let ghost t = trim(s@.subrange(a as int, b as int));
    assert(v@.subrange(lo as int, hi as int) == t);
    if lo == hi {
        return Err(CompilerError::SyntaxError(String::from_str("Empty duration string"), pos));
    }
    let c = v[hi - 1];
    let ghost num = t.drop_last();
    assert(v@.subrange(lo as int, (hi - 1) as int) =~= num);
    match parse_i64_range(v.as_slice(), lo, hi - 1) {
        None => {
            let mut m = String::from_str("Invalid duration value: ");
            let num_text = string_of_range(v.as_slice(), lo, hi - 1);
            m.append(num_text.as_str());
            Err(CompilerError::SyntaxError(m, pos))
        },
        Some(n) => {
            if c == 'h' {
                Ok(GovDuration { amount: n, unit: DurationUnit::Hours })
            } else if c == 'd' {
                Ok(GovDuration { amount: n, unit: DurationUnit::Days })
            } else if c == 'w' {
                Ok(GovDuration { amount: n, unit: DurationUnit::Weeks })
            } else {
                let mut m = String::from_str("Unknown duration unit: ");
                let unit_text = string_of_range(v.as_slice(), hi - 1, hi);
                assert(unit_text@ =~= seq![c]);
                m.append(unit_text.as_str());
                Err(CompilerError::SyntaxError(m, pos))
            }
        },
    }
}

/// A duration such as `72h`, `14d` or `2w`; errors name the position
/// `pos` of the line that holds it.
pub fn parse_duration(duration_str: &str, pos: SourcePosition) -> (r: Result<GovDuration, CompilerError>)
    requires
        !(duration_spec(duration_str@, pos) is Panic),
    ensures
        match r {
            Ok(d) => duration_spec(duration_str@, pos) == Outcome::Done(d),
            Err(e) => duration_spec(duration_str@, pos) == Outcome::<GovDuration>::Fail(err_model(e)),
        },
{
    let cs = chars_of(duration_str);
    assert(cs@.subrange(0, cs@.len() as int) =~= cs@);
    parse_duration_range(cs.as_slice(), 0, cs.len(), pos)
}

/// Applies the setting line whose words are the `spans` of `s` to `target`.
fn apply_command(
    s: &[char],
    spans: &Vec<(usize, usize)>,
    pos: SourcePosition,
    target: &mut LifecycleConfig,
) -> (r: Result<(), CompilerError>)
    requires
        spans@.len() >= 1,
        spans_inside(s@, spans@),
        !(command_spec(span_texts(s@, spans@), pos, config_model(*old(target))) is Panic),
    ensures
        match r {
            Ok(()) => command_spec(span_texts(s@, spans@), pos, config_model(*old(target))) == Outcome::Done(
                config_model(*final(target)),
            ),
            Err(e) => command_spec(span_texts(s@, spans@), pos, config_model(*old(target)))
                == Outcome::<ConfigModel>::Fail(err_model(e)),
        },
{
    let ghost p = span_texts(s@, spans@);
    let (c0, c1) = spans[0];
    assert(spans@[0].0 <= spans@[0].1 <= s@.len());
    assert(p[0] == s@.subrange(c0 as int, c1 as int));
    let cmd = string_of_range(s, c0, c1);
    let has_arg = spans.len() >= 2;
    if word_is(s, c0, c1, "quorumthreshold") || word_is(s, c0, c1, "votethreshold") {
        let is_quorum = word_is(s, c0, c1, "quorumthreshold");
        if !has_arg {
            return Err(CompilerError::MissingParameter(cmd, pos.line, pos.column));
        }
        let (a1, b1) = spans[1];
        assert(spans@[1].0 <= spans@[1].1 <= s@.len());
        assert(p[1] == s@.subrange(a1 as int, b1 as int));
        if !float_literal_ok(s, a1, b1) {
            return Err(CompilerError::InvalidParameterValue(cmd, pos.line, pos.column));
        }
        let value = string_of_range(s, a1, b1);
        if is_quorum {
            target.quorum = Some(value);
        } else {
            target.threshold = Some(value);
        }
        Ok(())
    } else if word_is(s, c0, c1, "mindeliberation") || word_is(s, c0, c1, "expiresin") {
        let is_min = word_is(s, c0, c1, "mindeliberation");
        if !has_arg {
            return Err(CompilerError::MissingParameter(cmd, pos.line, pos.column));
        }
        let (a1, b1) = spans[1];
        assert(spans@[1].0 <= spans@[1].1 <= s@.len());
        assert(p[1] == s@.subrange(a1 as int, b1 as int));
        let d = match parse_duration_range(s, a1, b1, pos) {
            Ok(d) => d,
            Err(e) => {
                return Err(e);
            },
        };
        if is_min {
            target.min_deliberation = Some(d);
        } else {
            target.expires_in = Some(d);
        }
        Ok(())
    } else if word_is(s, c0, c1, "require_role") {
        if !has_arg {
            return Err(CompilerError::MissingParameter(cmd, pos.line, pos.column));
        }
        let (a1, b1) = spans[1];
        assert(spans@[1].0 <= spans@[1].1 <= s@.len());
        assert(p[1] == s@.subrange(a1 as int, b1 as int));
        let role = unquote(s, a1, b1).unwrap();
        let ghost before = target.required_roles@;
        target.required_roles.push(role);
        assert(strings_model(target.required_roles@) =~= strings_model(before).push(role@));
        Ok(())
    } else {
        Err(CompilerError::UnknownCommand(cmd, pos.line, pos.column))
    }
}

/// The index of the template named `name` that was stored last.
fn find_template(templates: &Vec<(String, LifecycleConfig)>, name: &str) -> (r: Option<usize>)
    ensures
        match template_named(templates_model(templates@), name@) {
            Some(c) => r matches Some(k) && k < templates@.len() && config_model(templates@[k as int].1) == c,
            None => r is None,
        },
{
    let ghost tm = templates_model(templates@);
    let mut k: usize = templates.len();
    assert(tm.take(k as int) =~= tm);
    while k > 0
        invariant
            k <= templates@.len(),
            tm == templates_model(templates@),
            template_named(tm, name@) == template_named(tm.take(k as int), name@),
        decreases k,
    {
        proof {
            assert(tm.take(k as int).drop_last() =~= tm.take(k - 1));
            assert(tm.take(k as int)[k - 1] == (templates@[k - 1].0@, config_model(templates@[k - 1].1)));
        }
        if crate::text::str_eq(templates[k - 1].0.as_str(), name) {
            return Some(k - 1);
        }
        k -= 1;
    }
    assert(tm.take(0) =~= Seq::<(Seq<char>, ConfigModel)>::empty());
    None
}

/// The parser's state, as a value.
pub open spec fn state_of(
    ops: Seq<Op>,
    config: LifecycleConfig,
    in_governance: bool,
    in_template: bool,
    template_name: String,
    template: LifecycleConfig,
    templates: Seq<(String, LifecycleConfig)>,
) -> GovState {
    GovState {
        ops: ops_model(ops),
        config: config_model(config),
        in_governance,
        in_template,
        template_name: template_name@,
        template: config_model(template),
        templates: templates_model(templates),
    }
}

/// Parses DSL source into operations and the governance settings it
/// declares. A `governance { .. }` block sets values; a `template "name" {
/// .. }` block stores settings under a name; `governance use "name"` takes
/// from the named template what is not yet set. Inside either block a line
/// is one of `quorumthreshold F`, `votethreshold F`, `mindeliberation D`,
/// `expiresin D` and `require_role "role"`. Other lines are parsed as
/// [`crate::compiler::parse_dsl`] parses them, except that a block's parser
/// leaves the line at which parsing goes on.
pub fn parse_dsl(source: &str) -> (r: Result<(Vec<Op>, LifecycleConfig), CompilerError>)
    requires
        !(gov_parse_spec(source@) is Panic),
    ensures
        gov_result(r, gov_parse_spec(source@)),
{
    let line_vec = split_lines(source);
    let lines = line_vec.as_slice();
    let ghost ls = strs_view(lines@);
    proof {
        lemma_strs_view(lines@);
        lemma_ops_model_empty();
    }
    assert(ls == lines_of(source@));
    let mut current_line: usize = 0;
    let mut ops: Vec<Op> = Vec::new();
    let mut config = LifecycleConfig::default();
    let mut in_governance = false;
    let mut in_template = false;
    let mut template_name = String::new();
    let mut template = LifecycleConfig::default();
    let mut templates: Vec<(String, LifecycleConfig)> = Vec::new();
    assert(templates_model(templates@) =~= Seq::<(Seq<char>, ConfigModel)>::empty());
    assert(state_of(ops@, config, in_governance, in_template, template_name, template, templates@) == gov_start());
    while current_line < lines.len()
        invariant
            ls == strs_view(lines@),
            ls == lines_of(source@),
            ls.len() == lines@.len(),
            current_line <= lines@.len(),
            gov_program(ls, 0, gov_start()) == gov_program(
                ls,
                current_line as int,
                state_of(ops@, config, in_governance, in_template, template_name, template, templates@),
            ),
            !(gov_program(ls, 0, gov_start()) is Panic),
        decreases lines@.len() + 1 - current_line,
    {
        let ghost i = current_line as int;
        let ghost st = state_of(ops@, config, in_governance, in_template, template_name, template, templates@);
        let line = lines[current_line].as_str();
        assert(ls[i] == line@);
        let cs = chars_of(line);
        let s = cs.as_slice();
        proof {
            lemma_trim_bounds(s@);
        }
        let (a, b) = trim_bounds(s);
        if a == b {
            current_line = current_line + 1;
            continue;
        }
        let indent = get_indent(line);
        let pos = match pos_at(current_line, 1, indent) {
            Some(p) => p,
            None => {
                return Err(CompilerError::UnexpectedEOF(0));
            },
        };
        let ghost t = s@.subrange(a as int, b as int);
        assert(t == trim(line@));
        if range_begins(s, a, b, "template ") && range_finishes(s, a, b, " {") {
            let tv = crate::text::sub_chars(s, a, b);
            let spans = token_spans(tv.as_slice());
            if spans.len() < 3 {
                let mut m = String::from_str("Invalid template definition at line ");
                let n = decimal_string(pos.line);
                m.append(n.as_str());
                return Err(CompilerError::SyntaxError(m, pos));
            }
            let (p0, p1) = spans[1];
            assert(spans@[1].0 <= spans@[1].1 <= tv@.len());
            assert(tokens(t)[1] == tv@.subrange(p0 as int, p1 as int));
            let name = unquote(tv.as_slice(), p0, p1).unwrap();
            in_template = true;
            template_name = name;
            template = LifecycleConfig::default();
            current_line = current_line + 1;
            continue;
        }
        if in_template && word_is(s, a, b, "}") {
            let ghost before = templates@;
            templates.push((template_name.clone(), template.copy()));
            assert(templates_model(templates@) =~= templates_model(before).push((st.template_name, st.template)));
            in_template = false;
            current_line = current_line + 1;
            continue;
        }
        if range_begins(s, a, b, "governance use ") {
            let tv = crate::text::sub_chars(s, a, b);
            let spans = token_spans(tv.as_slice());
            if spans.len() < 3 {
                let mut m = String::from_str("Invalid governance use directive at line ");
                let n = decimal_string(pos.line);
                m.append(n.as_str());
                return Err(CompilerError::SyntaxError(m, pos));
            }
            let (p0, p1) = spans[2];
            assert(spans@[2].0 <= spans@[2].1 <= tv@.len());
            assert(tokens(t)[2] == tv@.subrange(p0 as int, p1 as int));
            let name = unquote(tv.as_slice(), p0, p1).unwrap();
            match find_template(&templates, name.as_str()) {
                Some(k) => {
                    config.merge_from(&templates[k].1);
                },
                None => {
                    let mut m = String::from_str("Unknown template '");
                    m.append(name.as_str());
                    m.append("' at line ");
                    let n = decimal_string(pos.line);
                    m.append(n.as_str());
                    return Err(CompilerError::SyntaxError(m, pos));
                },
            }
            current_line = current_line + 1;
            continue;
        }
        if word_is(s, a, b, "governance {") {
            in_governance = true;
            current_line = current_line + 1;
            continue;
        }
        if in_governance && word_is(s, a, b, "}") {
            in_governance = false;
            current_line = current_line + 1;
            continue;
        }
        if in_governance || in_template {
            let tv = crate::text::sub_chars(s, a, b);
            let spans = token_spans(tv.as_slice());
            proof {
                crate::text::lemma_nonempty_tokens(line@);
            }
            let res = if in_template {
                apply_command(tv.as_slice(), &spans, pos, &mut template)
            } else {
                apply_command(tv.as_slice(), &spans, pos, &mut config)
            };
            match res {
                Ok(()) => {},
                Err(e) => {
                    return Err(e);
                },
            }
            current_line = current_line + 1;
            continue;
        }
        if range_finishes(s, a, b, ":") {
            match parse_statement_block(lines, &mut current_line, pos, s, a, b) {
                Ok(op) => {
                    push_unless_nop(&mut ops, op);
                },
                Err(e) => {
                    return Err(e);
                },
            }
        } else {
            match parse_line(line, pos) {
                Ok(op) => {
                    push_unless_nop(&mut ops, op);
                    current_line = current_line + 1;
                },
                Err(e) => {
                    return Err(e);
                },
            }
        }
    }
    Ok((ops, config))
}

} // verus!
