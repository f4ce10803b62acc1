//! Option declarations that an engine prints during the handshake, and the
//! metadata gathered from its identification output.
use vstd::prelude::*;
use crate::text::{
    all_words, copy_opt, copy_strings, has_prefix, is_word, join, lemma_join_append,
    lemma_join_push, lemma_tokens_are_words, lemma_tokens_join, lemma_views_push, split_words,
    starts_with, str_eq, tokens, trim, trimmed, views,
};

verus! {

/// What an option declaration states, over character sequences.
pub struct OptionRecord {
    pub name: Seq<char>,
    pub option_type: Seq<char>,
    pub default: Option<Seq<char>>,
    pub min: Option<Seq<char>>,
    pub max: Option<Seq<char>>,
    pub var: Seq<Seq<char>>,
}

pub open spec fn opt_view(o: Option<String>) -> Option<Seq<char>> {
    match o {
        Some(s) => Some(s@),
        None => None,
    }
}

/// One option that an engine declares.
#[derive(Debug, Clone)]
pub struct EngineOption {
    pub name: String,
    pub option_type: String,
    pub default: Option<String>,
    pub min: Option<String>,
    pub max: Option<String>,
    pub var: Vec<String>,
}

impl View for EngineOption {
    type V = OptionRecord;

    open spec fn view(&self) -> OptionRecord {
        OptionRecord {
            name: self.name@,
            option_type: self.option_type@,
            default: opt_view(self.default),
            min: opt_view(self.min),
            max: opt_view(self.max),
            var: views(self.var@),
        }
    }
}

/// Index of the first `type` keyword at or after `i` (or the length).
pub open spec fn name_end(ts: Seq<Seq<char>>, i: int) -> int
    decreases ts.len() - i,
{
    if i >= ts.len() || ts[i] == "type"@ {
        i
    } else {
        name_end(ts, i + 1)
    }
}

/// Reads the keyword fields from position `i` on, left to right: `default`,
/// `min` and `max` each take the next word (the last occurrence counts),
/// `var` appends the next word, any other word is skipped.
pub open spec fn scan_fields(ts: Seq<Seq<char>>, i: int, r: OptionRecord) -> OptionRecord
    decreases ts.len() - i,
{
    if i >= ts.len() {
        r
    } else if ts[i] == "default"@ {
        if i + 1 < ts.len() {
            scan_fields(ts, i + 2, OptionRecord { default: Some(ts[i + 1]), ..r })
        } else {
            r
        }
    } else if ts[i] == "min"@ {
        if i + 1 < ts.len() {
            scan_fields(ts, i + 2, OptionRecord { min: Some(ts[i + 1]), ..r })
        } else {
            r
        }
    } else if ts[i] == "max"@ {
        if i + 1 < ts.len() {
            scan_fields(ts, i + 2, OptionRecord { max: Some(ts[i + 1]), ..r })
        } else {
            r
        }
    } else if ts[i] == "var"@ {
        if i + 1 < ts.len() {
            scan_fields(ts, i + 2, OptionRecord { var: r.var.push(ts[i + 1]), ..r })
        } else {
            r
        }
    } else {
        scan_fields(ts, i + 1, r)
    }
}

/// The option that the words of a declaration state: the name is every word
/// after `option name` up to `type`, joined by single spaces; the type is the
/// word after `type`; the rest is read by `scan_fields`. Nothing when the
/// name or the type is empty.
pub open spec fn parse_words(ts: Seq<Seq<char>>) -> Option<OptionRecord> {
    let k = name_end(ts, 2);
    let name = join(ts.subrange(2, k));
    let ty = if k + 1 < ts.len() { ts[k + 1] } else { seq![] };
    if ts.len() <= 2 || name.len() == 0 || ty.len() == 0 {
        None
    } else {
        Some(
            scan_fields(
                ts,
                k + 2,
                OptionRecord {
                    name: name,
                    option_type: ty,
                    default: None,
                    min: None,
                    max: None,
                    var: seq![],
                },
            ),
        )
    }
}

/// The option that a line of engine output declares, if it is a declaration.
pub open spec fn parse_line(line: Seq<char>) -> Option<OptionRecord> {
    if has_prefix(line, "option name "@) {
        parse_words(tokens(line))
    } else {
        None
    }
}

pub open spec fn option_view(o: Option<EngineOption>) -> Option<OptionRecord> {
    match o {
        Some(e) => Some(e@),
        None => None,
    }
}

proof fn lemma_scan_step(ts: Seq<Seq<char>>, i: int, r: OptionRecord)
    requires
        0 <= i < ts.len(),
    ensures
        scan_fields(ts, i, r) == (if ts[i] == "default"@ {
            if i + 1 < ts.len() {
                scan_fields(ts, i + 2, OptionRecord { default: Some(ts[i + 1]), ..r })
            } else {
                r
            }
        } else if ts[i] == "min"@ {
            if i + 1 < ts.len() {
                scan_fields(ts, i + 2, OptionRecord { min: Some(ts[i + 1]), ..r })
            } else {
                r
            }
        } else if ts[i] == "max"@ {
            if i + 1 < ts.len() {
                scan_fields(ts, i + 2, OptionRecord { max: Some(ts[i + 1]), ..r })
            } else {
                r
            }
        } else if ts[i] == "var"@ {
            if i + 1 < ts.len() {
                scan_fields(ts, i + 2, OptionRecord { var: r.var.push(ts[i + 1]), ..r })
            } else {
                r
            }
        } else {
            scan_fields(ts, i + 1, r)
        }),
{
}

/// What an engine reports of itself when asked to identify.
#[derive(Debug, Clone)]
pub struct EngineMetadata {
    pub name: String,
    pub author: Option<String>,
    pub options: Vec<EngineOption>,
}

pub open spec fn option_views(v: Seq<EngineOption>) -> Seq<OptionRecord> {
    v.map_values(|o: EngineOption| o@)
}

/// `EngineMetadata` over mathematical values.
pub struct MetadataRecord {
    pub name: Seq<char>,
    pub author: Option<Seq<char>>,
    pub options: Seq<OptionRecord>,
}

impl View for EngineMetadata {
    type V = MetadataRecord;

    open spec fn view(&self) -> MetadataRecord {
        MetadataRecord {
            name: self.name@,
            author: opt_view(self.author),
            options: option_views(self.options@),
        }
    }
}

pub open spec fn metadata_view(m: Option<EngineMetadata>) -> Option<MetadataRecord> {
    match m {
        Some(x) => Some(x@),
        None => None,
    }
}

impl EngineMetadata {
    /// A copy of the metadata.
    pub fn duplicate(&self) -> (r: EngineMetadata)
        ensures
            r@ == self@,
    {
        let mut options: Vec<EngineOption> = Vec::new();
        let mut i: usize = 0;
        while i < self.options.len()
            invariant
                i <= self.options@.len(),
                option_views(options@) == option_views(self.options@).subrange(0, i as int),
            decreases self.options@.len() - i,
        {
            let d = self.options[i].duplicate();
            let ghost before = options@;
            options.push(d);
            assert(option_views(before.push(d)) =~= option_views(before).push(d@));
            assert(option_views(options@) =~= option_views(self.options@).subrange(0, i + 1));
            i = i + 1;
        }
        assert(option_views(options@) =~= option_views(self.options@));
        EngineMetadata { name: self.name.clone(), author: copy_opt(&self.author), options }
    }
}

/// A copy of `m`.
pub fn copy_metadata(m: &Option<EngineMetadata>) -> (r: Option<EngineMetadata>)
    ensures
        metadata_view(r) == metadata_view(*m),
{
    match m {
        Some(x) => Some(x.duplicate()),
        None => None,
    }
}

impl EngineOption {
    /// A copy of the option.
    pub fn duplicate(&self) -> (r: EngineOption)
        ensures
            r@ == self@,
    {
        EngineOption {
            name: self.name.clone(),
            option_type: self.option_type.clone(),
            default: copy_opt(&self.default),
            min: copy_opt(&self.min),
            max: copy_opt(&self.max),
            var: copy_strings(&self.var),
        }
    }

    /// The declaration line that states this option.
    pub fn to_line(&self) -> (r: String)
        ensures
            r@ == render(self@),
    {
        let mut r = String::from_str("option name ");
        r.append(self.name.as_str());
        r.append(" type ");
        r.append(self.option_type.as_str());
        match &self.default {
            Some(d) => {
                r.append(" default ");
                r.append(d.as_str());
            },
            None => {},
        }
        match &self.min {
            Some(d) => {
                r.append(" min ");
                r.append(d.as_str());
            },
            None => {},
        }
        match &self.max {
            Some(d) => {
                r.append(" max ");
                r.append(d.as_str());
            },
            None => {},
        }
        let ghost base = r@;
        let ghost vs = views(self.var@);
        assert(vs.take(0) =~= Seq::<Seq<char>>::empty());
        assert(base + var_text(vs.take(0)) =~= base);
        let mut i: usize = 0;
        while i < self.var.len()
            invariant
                i <= self.var@.len(),
                vs == views(self.var@),
                r@ == base + var_text(vs.take(i as int)),
            decreases self.var@.len() - i,
        {
            r.append(" var ");
            r.append(self.var[i].as_str());
            assert(vs.take(i + 1).drop_last() =~= vs.take(i as int));
            assert(vs.take(i + 1).last() == self.var@[i as int]@);
            assert(r@ =~= base + var_text(vs.take(i + 1)));
            i = i + 1;
        }
        assert(vs.take(self.var@.len() as int) =~= vs);
        r
    }

    /// Parses one line of engine output as an option declaration.
    pub fn parse(line: &str) -> (r: Option<EngineOption>)
        ensures
            option_view(r) == parse_line(line@),
            !has_prefix(line@, "option name "@) ==> r is None,
    {
        if !starts_with(line, "option name ") {
            return None;
        }
        let parts = split_words(line);
        let ghost ts = views(parts@);
        let n = parts.len();
        if n <= 2 {
            return None;
        }
        let mut name = String::new();
        let mut i: usize = 2;
        proof {
            assert(ts.subrange(2, 2) =~= Seq::<Seq<char>>::empty());
        }
        while i < n && !str_eq(parts[i].as_str(), "type")
            invariant
                ts == views(parts@),
                n == parts@.len(),
                2 < n,
                2 <= i <= n,
                name@ == join(ts.subrange(2, i as int)),
                name_end(ts, 2) == name_end(ts, i as int),
            decreases n - i,
        {
            proof {
                assert(ts[i as int] == parts@[i as int]@);
                lemma_join_push_sub(ts, i as int);
            }
            if i > 2 {
                name.append(" ");
                proof {
                    reveal_strlit(" ");
                }
            }
            name.append(parts[i].as_str());
            proof {
                if i == 2 {
                    assert(ts.subrange(2, 3) =~= seq![ts[2]]);
                }
                assert(name@ =~= join(ts.subrange(2, i + 1)));
            }
            i = i + 1;
        }
        proof {
            assert(name_end(ts, i as int) == i as int);
        }
        if name.as_str().unicode_len() == 0 || i >= n {
            return None;
        }
        let ghost k = i as int;
        i = i + 1;
        if i >= n {
            return None;
        }
        let option_type = parts[i].clone();
        proof {
            assert(ts[k + 1] == parts@[k + 1]@);
        }
        i = i + 1;
        if option_type.as_str().unicode_len() == 0 {
            return None;
        }
        let ghost start = OptionRecord {
            name: name@,
            option_type: option_type@,
            default: None,
            min: None,
            max: None,
            var: seq![],
        };
        let mut default: Option<String> = None;
        let mut min: Option<String> = None;
        let mut max: Option<String> = None;
        let mut var: Vec<String> = Vec::new();
        proof {
            assert(views(var@) =~= Seq::<Seq<char>>::empty());
            assert(name_end(ts, 2) == k);
            assert(option_type@.len() > 0);
            assert(parse_words(ts) == Some(scan_fields(ts, k + 2, start)));
        }
        while i < n
            invariant
                ts == views(parts@),
                n == parts@.len(),
                i <= n,
                parse_words(ts) == Some(scan_fields(ts, i as int, OptionRecord {
                    name: name@,
                    option_type: option_type@,
                    default: opt_view(default),
                    min: opt_view(min),
                    max: opt_view(max),
                    var: views(var@),
                })),
            decreases n - i,
        {
            let ghost cur = OptionRecord {
                name: name@,
                option_type: option_type@,
                default: opt_view(default),
                min: opt_view(min),
                max: opt_view(max),
                var: views(var@),
            };
            proof {
                lemma_scan_step(ts, i as int, cur);
                assert(ts[i as int] == parts@[i as int]@);
                if i + 1 < n {
                    assert(ts[i + 1] == parts@[i + 1]@);
                }
            }
            let w = parts[i].as_str();
            if str_eq(w, "default") {
                if i + 1 < n {
                    default = Some(parts[i + 1].clone());
                    i = i + 2;
                } else {
                    i = n;
                }
            } else if str_eq(w, "min") {
                if i + 1 < n {
                    min = Some(parts[i + 1].clone());
                    i = i + 2;
                } else {
                    i = n;
                }
            } else if str_eq(w, "max") {
                if i + 1 < n {
                    max = Some(parts[i + 1].clone());
                    i = i + 2;
                } else {
                    i = n;
                }
            } else if str_eq(w, "var") {
                if i + 1 < n {
                    let v = parts[i + 1].clone();
                    proof {
                        lemma_views_push(var@, v);
                    }
                    var.push(v);
                    i = i + 2;
                } else {
                    i = n;
                }
            } else {
                i = i + 1;
            }
        }
        Some(EngineOption { name, option_type, default, min, max, var })
    }
}

proof fn lemma_join_push_sub(ts: Seq<Seq<char>>, i: int)
    requires
        2 <= i < ts.len(),
    ensures
        i > 2 ==> join(ts.subrange(2, i + 1)) == join(ts.subrange(2, i)) + (seq![' '] + ts[i]),
        i == 2 ==> join(ts.subrange(2, i + 1)) == ts[i],
{
    if i > 2 {
        assert(ts.subrange(2, i + 1) =~= ts.subrange(2, i).push(ts[i]));
        lemma_join_push(ts.subrange(2, i), ts[i]);
    } else {
        assert(ts.subrange(2, 3) =~= seq![ts[2]]);
    }
}

/// The engine did not finish its identification with `usiok`.
#[derive(Debug, Clone, Copy, PartialEq, Eq, Structural)]
pub enum ValidationError {
    NoUsiOk,
}

/// The metadata gathered so far from an engine's answer to `usi`.
pub struct MetadataScan {
    pub name: String,
    pub author: Option<String>,
    pub options: Vec<EngineOption>,
    /// `usiok` was seen: the answer is complete.
    pub done: bool,
}

impl MetadataScan {
    /// Nothing read yet; the name is `Unknown Engine` until one is given.
    pub fn new() -> (r: MetadataScan)
        ensures
            r.name@ == "Unknown Engine"@,
            r.author is None,
            r.options@.len() == 0,
            !r.done,
    {
        MetadataScan {
            name: String::from_str("Unknown Engine"),
            author: None,
            options: Vec::new(),
            done: false,
        }
    }

    /// Reads one line of the answer: `id name` sets the name, `id author` the
    /// author (both trimmed), a valid option declaration is added, `usiok`
    /// completes the answer. Lines after `usiok` are ignored.
    pub fn feed(&mut self, line: &str)
        ensures
            old(self).done ==> *final(self) == *old(self),
            !old(self).done ==> ({
                let id_name = has_prefix(line@, "id name "@);
                let id_author = !id_name && has_prefix(line@, "id author "@);
                let decl = !id_name && !id_author && has_prefix(line@, "option name "@);
                &&& final(self).name@ == (if id_name { trim(line@.skip(8)) } else { old(self).name@ })
                &&& opt_view(final(self).author) == (if id_author {
                    Some(trim(line@.skip(10)))
                } else {
                    opt_view(old(self).author)
                })
                &&& option_views(final(self).options@) == (if decl && parse_line(line@) is Some {
                    option_views(old(self).options@).push(parse_line(line@)->0)
                } else {
                    option_views(old(self).options@)
                })
                &&& final(self).done == (!id_name && !id_author && !decl && line@ == "usiok"@)
            }),
    {
        if self.done {
            return;
        }
        let n = line.unicode_len();
        if starts_with(line, "id name ") {
            proof {
                reveal_strlit("id name ");
            }
            self.name = trimmed(line.substring_char(8, n));
        } else if starts_with(line, "id author ") {
            proof {
                reveal_strlit("id author ");
            }
            self.author = Some(trimmed(line.substring_char(10, n)));
        } else if starts_with(line, "option name ") {
            match EngineOption::parse(line) {
                Some(o) => {
                    let ghost before = self.options@;
                    self.options.push(o);
                    assert(option_views(before.push(o)) =~= option_views(before).push(o@));
                },
                None => {},
            }
        } else if str_eq(line, "usiok") {
            self.done = true;
        }
    }

    /// The metadata, if the answer was complete.
    pub fn finish(self) -> (r: Result<EngineMetadata, ValidationError>)
        ensures
            self.done ==> (r matches Ok(m) && m.name == self.name && m.author == self.author
                && m.options == self.options),
            !self.done ==> r == Err::<EngineMetadata, ValidationError>(ValidationError::NoUsiOk),
    {
        if self.done {
            Ok(EngineMetadata { name: self.name, author: self.author, options: self.options })
        } else {
            Err(ValidationError::NoUsiOk)
        }
    }
}

/// ` kw v` when the field is present, nothing otherwise.
pub open spec fn field_text(kw: Seq<char>, v: Option<Seq<char>>) -> Seq<char> {
    match v {
        Some(x) => kw + x,
        None => seq![],
    }
}

/// ` var v` for each value, in order.
pub open spec fn var_text(vs: Seq<Seq<char>>) -> Seq<char>
    decreases vs.len(),
{
    if vs.len() == 0 {
        seq![]
    } else {
        var_text(vs.drop_last()) + " var "@ + vs.last()
    }
}

/// The declaration line that states option `o`.
pub open spec fn render(o: OptionRecord) -> Seq<char> {
    "option name "@ + o.name + " type "@ + o.option_type + field_text(" default "@, o.default)
        + field_text(" min "@, o.min) + field_text(" max "@, o.max) + var_text(o.var)
}

/// An option that a declaration can state: its name is words joined by
/// single spaces, none of them `type`; its type and values are words.
pub open spec fn valid_option(o: OptionRecord) -> bool {
    &&& o.name.len() > 0
    &&& join(tokens(o.name)) == o.name
    &&& forall|i: int| 0 <= i < tokens(o.name).len() ==> #[trigger] tokens(o.name)[i] != "type"@
    &&& is_word(o.option_type)
    &&& (o.default is Some ==> is_word(o.default->0))
    &&& (o.min is Some ==> is_word(o.min->0))
    &&& (o.max is Some ==> is_word(o.max->0))
    &&& all_words(o.var)
}

pub open spec fn field_words(kw: Seq<char>, v: Option<Seq<char>>) -> Seq<Seq<char>> {
    match v {
        Some(x) => seq![kw, x],
        None => seq![],
    }
}

/// Words `p + 2t` and `p + 2t + 1` of `ts` are `var` and `vs[t]`.
pub open spec fn var_slot(ts: Seq<Seq<char>>, p: int, vs: Seq<Seq<char>>, t: int) -> bool {
    ts[p + 2 * t] == var_keyword() && ts[p + 2 * t + 1] == vs[t]
}

/// The keyword that introduces an allowed value.
pub open spec fn var_keyword() -> Seq<char> {
    "var"@
}

pub open spec fn var_words(vs: Seq<Seq<char>>) -> Seq<Seq<char>>
    decreases vs.len(),
{
    if vs.len() == 0 {
        seq![]
    } else {
        var_words(vs.drop_last()) + seq![var_keyword(), vs.last()]
    }
}

pub open spec fn head_words(o: OptionRecord) -> Seq<Seq<char>> {
    seq!["option"@, "name"@] + tokens(o.name) + seq!["type"@, o.option_type]
}

/// The words of `render(o)`.
pub open spec fn option_words(o: OptionRecord) -> Seq<Seq<char>> {
    head_words(o) + field_words("default"@, o.default) + field_words("min"@, o.min) + field_words(
        "max"@,
        o.max,
    ) + var_words(o.var)
}

proof fn lemma_keywords()
    ensures
        "option name "@ == "option"@ + (seq![' '] + "name"@) + seq![' '],
        " type "@ == seq![' '] + "type"@ + seq![' '],
        " default "@ == seq![' '] + "default"@ + seq![' '],
        " min "@ == seq![' '] + "min"@ + seq![' '],
        " max "@ == seq![' '] + "max"@ + seq![' '],
        " var "@ == seq![' '] + "var"@ + seq![' '],
        is_word("option"@),
        is_word("name"@),
        is_word("type"@),
        is_word("default"@),
        is_word("min"@),
        is_word("max"@),
        is_word("var"@),
        "default"@ != "min"@,
        "default"@ != "max"@,
        "default"@ != "var"@,
        "min"@ != "max"@,
        "min"@ != "var"@,
        "max"@ != "var"@,
{
    reveal_strlit("option name ");
    reveal_strlit(" type ");
    reveal_strlit(" default ");
    reveal_strlit(" min ");
    reveal_strlit(" max ");
    reveal_strlit(" var ");
    reveal_strlit("option");
    reveal_strlit("name");
    reveal_strlit("type");
    reveal_strlit("default");
    reveal_strlit("min");
    reveal_strlit("max");
    reveal_strlit("var");
    assert("option name "@ =~= "option"@ + (seq![' '] + "name"@) + seq![' ']);
    assert(" type "@ =~= seq![' '] + "type"@ + seq![' ']);
    assert(" default "@ =~= seq![' '] + "default"@ + seq![' ']);
    assert(" min "@ =~= seq![' '] + "min"@ + seq![' ']);
    assert(" max "@ =~= seq![' '] + "max"@ + seq![' ']);
    assert(" var "@ =~= seq![' '] + "var"@ + seq![' ']);
    assert("min"@[1] != "max"@[1]);
    assert("min"@[0] != "var"@[0]);
    assert("max"@[0] != "var"@[0]);
}

proof fn lemma_join_field(x: Seq<Seq<char>>, kw: Seq<char>, kwtext: Seq<char>, v: Option<Seq<char>>)
    requires
        x.len() > 0,
        kwtext == seq![' '] + kw + seq![' '],
    ensures
        join(x + field_words(kw, v)) == join(x) + field_text(kwtext, v),
{
    match v {
        Some(val) => {
            assert(x + field_words(kw, v) =~= x.push(kw).push(val));
            lemma_join_push(x, kw);
            lemma_join_push(x.push(kw), val);
            assert(join(x + field_words(kw, v)) =~= join(x) + field_text(kwtext, v));
        },
        None => {
            assert(x + field_words(kw, v) =~= x);
            assert(join(x) + field_text(kwtext, v) =~= join(x));
        },
    }
}

proof fn lemma_join_vars(x: Seq<Seq<char>>, vs: Seq<Seq<char>>)
    requires
        x.len() > 0,
        " var "@ == seq![' '] + "var"@ + seq![' '],
    ensures
        join(x + var_words(vs)) == join(x) + var_text(vs),
    decreases vs.len(),
{
    if vs.len() == 0 {
        assert(x + var_words(vs) =~= x);
        assert(join(x) + var_text(vs) =~= join(x));
    } else {
        let v0 = vs.drop_last();
        lemma_join_vars(x, v0);
        assert(x + var_words(vs) =~= (x + var_words(v0)).push("var"@).push(vs.last()));
        lemma_join_push(x + var_words(v0), "var"@);
        lemma_join_push((x + var_words(v0)).push("var"@), vs.last());
        assert(join(x + var_words(vs)) =~= join(x) + var_text(vs));
    }
}

proof fn lemma_var_words_index(vs: Seq<Seq<char>>)
    ensures
        var_words(vs).len() == 2 * vs.len(),
        forall|t: int| 0 <= t < vs.len() ==> #[trigger] var_slot(var_words(vs), 0, vs, t),
    decreases vs.len(),
{
    if vs.len() > 0 {
        let v0 = vs.drop_last();
        lemma_var_words_index(v0);
        let tail = seq![var_keyword(), vs.last()];
        assert forall|t: int| 0 <= t < vs.len() implies #[trigger] var_slot(var_words(vs), 0, vs, t) by {
            if t < v0.len() {
                assert(var_slot(var_words(v0), 0, v0, t));
                assert(v0[t] == vs[t]);
                assert(var_words(vs)[2 * t] == var_words(v0)[2 * t]);
                assert(var_words(vs)[2 * t + 1] == var_words(v0)[2 * t + 1]);
            } else {
                assert(t == v0.len());
                assert(var_words(vs)[2 * t] == tail[0]);
                assert(var_words(vs)[2 * t + 1] == tail[1]);
            }
        }
    }
}

proof fn lemma_all_words_add(a: Seq<Seq<char>>, b: Seq<Seq<char>>)
    requires
        all_words(a),
        all_words(b),
    ensures
        all_words(a + b),
{
    assert forall|i: int| 0 <= i < (a + b).len() implies is_word(#[trigger] (a + b)[i]) by {
        if i < a.len() {
            assert((a + b)[i] == a[i]);
        } else {
            assert((a + b)[i] == b[i - a.len()]);
        }
    }
}

proof fn lemma_var_words_words(vs: Seq<Seq<char>>)
    requires
        all_words(vs),
        is_word(var_keyword()),
    ensures
        all_words(var_words(vs)),
{
    lemma_var_words_index(vs);
    assert forall|i: int| 0 <= i < var_words(vs).len() implies is_word(#[trigger] var_words(vs)[i]) by {
        let t = i / 2;
        assert(0 <= t < vs.len());
        assert(is_word(vs[t]));
        assert(var_slot(var_words(vs), 0, vs, t));
        if i % 2 == 0 {
            assert(i == 2 * t);
        } else {
            assert(i == 2 * t + 1);
        }
    }
}

proof fn lemma_name_end(ts: Seq<Seq<char>>, i: int, k: int)
    requires
        2 <= i <= k < ts.len(),
        ts[k] == "type"@,
        forall|j: int| i <= j < k ==> ts[j] != "type"@,
    ensures
        name_end(ts, i) == k,
    decreases k - i,
{
    if i < k {
        lemma_name_end(ts, i + 1, k);
    }
}

proof fn lemma_scan_vars(ts: Seq<Seq<char>>, p: int, vs: Seq<Seq<char>>, i: int, r: OptionRecord)
    requires
        0 <= p,
        0 <= i <= vs.len(),
        p + 2 * vs.len() == ts.len(),
        forall|t: int| 0 <= t < vs.len() ==> #[trigger] var_slot(ts, p, vs, t),
        "default"@ != var_keyword(),
        "min"@ != var_keyword(),
        "max"@ != var_keyword(),
    ensures
        scan_fields(ts, p + 2 * i, r) == (OptionRecord { var: r.var + vs.skip(i), ..r }),
    decreases vs.len() - i,
{
    if i == vs.len() {
        assert(r.var + vs.skip(i) =~= r.var);
    } else {
        let q = p + 2 * i;
        assert(var_slot(ts, p, vs, i));
        let r2 = OptionRecord { var: r.var.push(vs[i]), ..r };
        assert(scan_fields(ts, q, r) == scan_fields(ts, q + 2, r2));
        assert(q + 2 == p + 2 * (i + 1));
        lemma_scan_vars(ts, p, vs, i + 1, r2);
        assert(r.var.push(vs[i]) + vs.skip(i + 1) =~= r.var + vs.skip(i));
    }
}

proof fn lemma_render_words(o: OptionRecord)
    requires
        valid_option(o),
    ensures
        join(option_words(o)) == render(o),
        all_words(option_words(o)),
{
    lemma_keywords();
    let nt = tokens(o.name);
    lemma_tokens_are_words(o.name);
    if nt.len() == 0 {
        assert(join(nt) =~= Seq::<char>::empty());
    }
    let a = seq!["option"@, "name"@];
    assert(a.drop_first() =~= seq!["name"@]);
    assert(join(a.drop_first()) == "name"@);
    assert(join(a) == "option"@ + (seq![' '] + "name"@));
    lemma_join_append(a, nt);
    let x1 = a + nt;
    let ty = Some(o.option_type);
    lemma_join_field(x1, "type"@, " type "@, ty);
    let x0 = head_words(o);
    assert(x0 =~= x1 + field_words("type"@, ty));
    lemma_join_field(x0, "default"@, " default "@, o.default);
    let x2 = x0 + field_words("default"@, o.default);
    lemma_join_field(x2, "min"@, " min "@, o.min);
    let x3 = x2 + field_words("min"@, o.min);
    lemma_join_field(x3, "max"@, " max "@, o.max);
    let x4 = x3 + field_words("max"@, o.max);
    lemma_join_vars(x4, o.var);
    assert(join(option_words(o)) =~= render(o));
    assert(all_words(a)) by {
        assert forall|i: int| 0 <= i < a.len() implies is_word(#[trigger] a[i]) by {
            if i == 0 {
                assert(a[i] == "option"@);
            } else {
                assert(a[i] == "name"@);
            }
        }
    }
    assert forall|kw: Seq<char>, v: Option<Seq<char>>|
        is_word(kw) && (v is Some ==> is_word(v->0)) implies all_words(
        #[trigger] field_words(kw, v),
    ) by {
        if v is Some {
            assert forall|i: int| 0 <= i < field_words(kw, v).len() implies is_word(
                #[trigger] field_words(kw, v)[i],
            ) by {
                if i == 0 {
                    assert(field_words(kw, v)[i] == kw);
                } else {
                    assert(field_words(kw, v)[i] == v->0);
                }
            }
        }
    }
    lemma_all_words_add(a, nt);
    lemma_all_words_add(x1, field_words("type"@, ty));
    lemma_all_words_add(x0, field_words("default"@, o.default));
    lemma_all_words_add(x2, field_words("min"@, o.min));
    lemma_all_words_add(x3, field_words("max"@, o.max));
    lemma_var_words_words(o.var);
    lemma_all_words_add(x4, var_words(o.var));
}

proof fn lemma_render_prefix(o: OptionRecord)
    ensures
        has_prefix(render(o), "option name "@),
{
    let rest = o.name + " type "@ + o.option_type + field_text(" default "@, o.default)
        + field_text(" min "@, o.min) + field_text(" max "@, o.max) + var_text(o.var);
    assert(render(o) =~= "option name "@ + rest);
    assert(render(o).subrange(0, "option name "@.len() as int) =~= "option name "@);
}

/// Scanning the field words of `option_words(o)` restores the fields of `o`.
#[verifier::rlimit(50)]
proof fn lemma_scan_option_words(o: OptionRecord, r: OptionRecord)
    requires
        r.name == o.name,
        r.option_type == o.option_type,
        r.default is None,
        r.min is None,
        r.max is None,
        r.var == Seq::<Seq<char>>::empty(),
        "default"@ != "min"@,
        "default"@ != "max"@,
        "default"@ != "var"@,
        "min"@ != "max"@,
        "min"@ != "var"@,
        "max"@ != "var"@,
    ensures
        scan_fields(option_words(o), head_words(o).len() as int, r) == o,
{
    let w = option_words(o);
    let x0 = head_words(o);
    let f1 = field_words("default"@, o.default);
    let f2 = field_words("min"@, o.min);
    let f3 = field_words("max"@, o.max);
    let vw = var_words(o.var);
    let x1 = x0 + f1;
    let x2 = x1 + f2;
    let x3 = x2 + f3;
    assert(w == x3 + vw);
    lemma_var_words_index(o.var);
    let pos0 = x0.len() as int;
    let pos1 = x1.len() as int;
    let pos2 = x2.len() as int;
    let pos3 = x3.len() as int;
    let r1 = OptionRecord { default: o.default, ..r };
    if o.default is Some {
        assert(w[pos0] == x1[pos0]);
        assert(w[pos0 + 1] == x1[pos0 + 1]);
        assert(scan_fields(w, pos0, r) == scan_fields(w, pos1, r1));
    } else {
        assert(x1 =~= x0);
    }
    let r2 = OptionRecord { min: o.min, ..r1 };
    if o.min is Some {
        assert(w[pos1] == x2[pos1]);
        assert(w[pos1 + 1] == x2[pos1 + 1]);
        assert(scan_fields(w, pos1, r1) == scan_fields(w, pos2, r2));
    } else {
        assert(x2 =~= x1);
    }
    let r3 = OptionRecord { max: o.max, ..r2 };
    if o.max is Some {
        assert(w[pos2] == x3[pos2]);
        assert(w[pos2 + 1] == x3[pos2 + 1]);
        assert(scan_fields(w, pos2, r2) == scan_fields(w, pos3, r3));
    } else {
        assert(x3 =~= x2);
    }
    assert forall|t: int| 0 <= t < o.var.len() implies #[trigger] var_slot(w, pos3, o.var, t) by {
        assert(var_slot(vw, 0, o.var, t));
        assert(w[pos3 + 2 * t] == vw[2 * t]);
        assert(w[pos3 + 2 * t + 1] == vw[2 * t + 1]);
    }
    lemma_scan_vars(w, pos3, o.var, 0, r3);
    assert(r3.var + o.var.skip(0) =~= o.var);
}

/// A valid option, rendered as a declaration, parses back to itself.
pub proof fn lemma_render_parse(o: OptionRecord)
    requires
        valid_option(o),
    ensures
        parse_line(render(o)) == Some(o),
{
    lemma_keywords();
    lemma_render_words(o);
    let w = option_words(o);
    lemma_tokens_join(w);
    lemma_render_prefix(o);
    let nt = tokens(o.name);
    if nt.len() == 0 {
        assert(join(nt) =~= Seq::<char>::empty());
    }
    let x0 = head_words(o);
    let tail = field_words("default"@, o.default) + field_words("min"@, o.min) + field_words(
        "max"@,
        o.max,
    ) + var_words(o.var);
    assert(w =~= x0 + tail);
    let k: int = 2 + nt.len() as int;
    assert(x0.len() == k + 2);
    assert(w[k] == x0[k]);
    assert(w[k + 1] == x0[k + 1]);
    assert forall|j: int| 2 <= j < k implies w[j] != "type"@ by {
        assert(w[j] == x0[j]);
        assert(x0[j] == nt[j - 2]);
    }
    lemma_name_end(w, 2, k);
    assert(w.subrange(2, k) =~= nt) by {
        assert forall|j: int| 0 <= j < nt.len() implies w.subrange(2, k)[j] == nt[j] by {
            assert(w[j + 2] == x0[j + 2]);
        }
    }
    let start = OptionRecord {
        name: o.name,
        option_type: o.option_type,
        default: None,
        min: None,
        max: None,
        var: seq![],
    };
    assert(parse_words(w) == Some(scan_fields(w, k + 2, start)));
    lemma_scan_option_words(o, start);
}

proof fn lemma_name_end_props(ts: Seq<Seq<char>>, i: int)
    requires
        0 <= i <= ts.len(),
    ensures
        i <= name_end(ts, i) <= ts.len(),
        name_end(ts, i) < ts.len() ==> ts[name_end(ts, i)] == "type"@,
        forall|j: int| i <= j < name_end(ts, i) ==> ts[j] != "type"@,
    decreases ts.len() - i,
{
    if i < ts.len() && ts[i] != "type"@ {
        lemma_name_end_props(ts, i + 1);
    }
}

/// Every field that `scan_fields` fills is a word when the words scanned are.
proof fn lemma_scan_words(ts: Seq<Seq<char>>, i: int, r: OptionRecord)
    requires
        all_words(ts),
        0 <= i,
        r.default is Some ==> is_word(r.default->0),
        r.min is Some ==> is_word(r.min->0),
        r.max is Some ==> is_word(r.max->0),
        all_words(r.var),
    ensures
        ({
            let s = scan_fields(ts, i, r);
            &&& s.name == r.name
            &&& s.option_type == r.option_type
            &&& (s.default is Some ==> is_word(s.default->0))
            &&& (s.min is Some ==> is_word(s.min->0))
            &&& (s.max is Some ==> is_word(s.max->0))
            &&& all_words(s.var)
        }),
    decreases ts.len() - i,
{
    if i < ts.len() {
        if i + 1 < ts.len() {
            assert(is_word(ts[i + 1]));
            let v2 = r.var.push(ts[i + 1]);
            assert(all_words(v2)) by {
                assert forall|t: int| 0 <= t < v2.len() implies is_word(#[trigger] v2[t]) by {
                    if t < r.var.len() {
                        assert(v2[t] == r.var[t]);
                    }
                }
            }
            lemma_scan_words(ts, i + 2, OptionRecord { default: Some(ts[i + 1]), ..r });
            lemma_scan_words(ts, i + 2, OptionRecord { min: Some(ts[i + 1]), ..r });
            lemma_scan_words(ts, i + 2, OptionRecord { max: Some(ts[i + 1]), ..r });
            lemma_scan_words(ts, i + 2, OptionRecord { var: v2, ..r });
        }
        lemma_scan_words(ts, i + 1, r);
    }
}

/// What a declaration states is a valid option.
pub proof fn lemma_parsed_is_valid(line: Seq<char>)
    requires
        parse_line(line) is Some,
    ensures
        valid_option(parse_line(line)->0),
{
    let ts = tokens(line);
    lemma_tokens_are_words(line);
    let k = name_end(ts, 2);
    lemma_name_end_props(ts, 2);
    let nt = ts.subrange(2, k);
    assert(all_words(nt)) by {
        assert forall|i: int| 0 <= i < nt.len() implies is_word(#[trigger] nt[i]) by {
            assert(nt[i] == ts[i + 2]);
        }
    }
    lemma_tokens_join(nt);
    assert forall|i: int| 0 <= i < nt.len() implies #[trigger] nt[i] != "type"@ by {
        assert(nt[i] == ts[i + 2]);
    }
    assert(is_word(ts[k + 1]));
    let start = OptionRecord {
        name: join(nt),
        option_type: ts[k + 1],
        default: None,
        min: None,
        max: None,
        var: seq![],
    };
    lemma_scan_words(ts, k + 2, start);
}

/// Parsing a declaration, rendering what was parsed and parsing that again
/// gives the same option: name, type, default, min, max and the whole `var`
/// list survive the round trip.
pub proof fn lemma_option_round_trip(line: Seq<char>)
    requires
        parse_line(line) is Some,
    ensures
        parse_line(render(parse_line(line)->0)) == parse_line(line),
{
    lemma_parsed_is_valid(line);
    lemma_render_parse(parse_line(line)->0);
}

} // verus!
