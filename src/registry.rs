//! Template discovery: descriptor documents turned into templates, and the
//! registry of the starters whose descriptor is valid.
use crate::pattern::{regex_valid, Pattern};
use crate::rules::{Template, TemplateRule, TemplateRuleKind};
use vstd::prelude::*;

verus! {

/// The file inside a starter directory that describes the template.
pub const GENERATOR_FILE_NAME: &'static str = "generator.yaml";

/// A rule as written in a descriptor: regex sources and the kind's word.
pub struct RuleDoc {
    pub pattern: String,
    pub kind: String,
    pub file_patterns: Option<Vec<String>>,
}

/// A descriptor document as written, before its regexes are compiled.
pub struct TemplateDoc {
    pub description: String,
    pub file_patterns: Option<Vec<String>>,
    pub rules: Option<Vec<RuleDoc>>,
}

/// One entry of the templates root: its name, whether it is a directory,
/// and its descriptor where one exists and could be read and parsed.
pub struct StarterEntry {
    pub name: String,
    pub is_dir: bool,
    pub descriptor: Option<TemplateDoc>,
}

/// Every source of `srcs` is a valid regex.
pub open spec fn all_valid(srcs: Seq<String>) -> bool {
    forall|i: int| 0 <= i < srcs.len() ==> regex_valid(#[trigger] srcs[i]@)
}

pub open spec fn opt_all_valid(srcs: Option<Vec<String>>) -> bool {
    match srcs {
        Some(v) => all_valid(v@),
        None => true,
    }
}

/// `ps` holds the patterns compiled from `srcs`, in order.
pub open spec fn compiled_from(ps: Seq<Pattern>, srcs: Seq<String>) -> bool {
    ps.len() == srcs.len() && forall|i: int| 0 <= i < ps.len() ==> #[trigger] ps[i]@ == srcs[i]@
}

pub open spec fn opt_compiled_from(ps: Option<Vec<Pattern>>, srcs: Option<Vec<String>>) -> bool {
    match (ps, srcs) {
        (None, None) => true,
        (Some(p), Some(s)) => compiled_from(p@, s@),
        _ => false,
    }
}

/// All regexes of the rule compile.
pub open spec fn rule_doc_valid(d: RuleDoc) -> bool {
    regex_valid(d.pattern@) && opt_all_valid(d.file_patterns)
}

/// All regexes of the descriptor compile.
pub open spec fn doc_valid(d: TemplateDoc) -> bool {
    &&& opt_all_valid(d.file_patterns)
    &&& match d.rules {
        Some(rs) => forall|i: int| 0 <= i < rs@.len() ==> rule_doc_valid(#[trigger] rs@[i]),
        None => true,
    }
}

/// `r` is the rule that `d` describes.
pub open spec fn rule_built_from(r: TemplateRule, d: RuleDoc) -> bool {
    &&& r.pattern@ == d.pattern@
    &&& r.kind.denoted_by(d.kind@)
    &&& opt_compiled_from(r.file_patterns, d.file_patterns)
}

/// `t` is the template that `d` describes.
pub open spec fn built_from(t: Template, d: TemplateDoc) -> bool {
    &&& t.description@ == d.description@
    &&& opt_compiled_from(t.file_patterns, d.file_patterns)
    &&& match (t.rules, d.rules) {
        (None, None) => true,
        (Some(a), Some(b)) => a@.len() == b@.len() && forall|i: int|
            0 <= i < a@.len() ==> rule_built_from(#[trigger] a@[i], b@[i]),
        _ => false,
    }
}

/// Compiles every source of `srcs`; `None` where one of them is rejected.
pub fn compile_all(srcs: &Vec<String>) -> (r: Option<Vec<Pattern>>)
    ensures
        r.is_some() == all_valid(srcs@),
        r matches Some(ps) ==> compiled_from(ps@, srcs@),
{
    let mut out: Vec<Pattern> = Vec::new();
    let mut i: usize = 0;
    while i < srcs.len()
        invariant
            0 <= i <= srcs.len(),
            compiled_from(out@, srcs@.take(i as int)),
            all_valid(srcs@.take(i as int)),
        decreases srcs.len() - i,
    {
        match Pattern::new(srcs[i].as_str()) {
            Some(p) => {
                out.push(p);
                assert(srcs@.take(i + 1) =~= srcs@.take(i as int).push(srcs@[i as int]));
                i += 1;
            },
            None => {
                assert(!all_valid(srcs@) ) by {
                    assert(!regex_valid(srcs@[i as int]@));
                }
                return None;
            },
        }
    }
    assert(srcs@.take(i as int) =~= srcs@);
    Some(out)
}

/// `compile_all` on an optional list: the inner `None` stands for an absent
/// list, the outer `None` for a rejected source.
fn compile_opt(srcs: &Option<Vec<String>>) -> (r: Option<Option<Vec<Pattern>>>)
    ensures
        r.is_some() == opt_all_valid(*srcs),
        r matches Some(ps) ==> opt_compiled_from(ps, *srcs),
{
    match srcs {
        None => Some(None),
        Some(v) => match compile_all(v) {
            Some(ps) => Some(Some(ps)),
            None => None,
        },
    }
}

impl TemplateRule {
    /// The rule that `d` describes; `None` where one of its regexes is rejected.
    pub fn from_doc(d: &RuleDoc) -> (r: Option<TemplateRule>)
        ensures
            r.is_some() == rule_doc_valid(*d),
            r matches Some(rule) ==> rule_built_from(rule, *d),
    {
        let pattern = match Pattern::new(d.pattern.as_str()) {
            Some(p) => p,
            None => return None,
        };
        let file_patterns = match compile_opt(&d.file_patterns) {
            Some(ps) => ps,
            None => return None,
        };
        let kind = TemplateRuleKind::from_word(d.kind.as_str());
        Some(TemplateRule { pattern, kind, file_patterns })
    }
}

impl Template {
    /// The template that `d` describes; `None` where one of its regexes is
    /// rejected.
    pub fn from_doc(d: &TemplateDoc) -> (r: Option<Template>)
        ensures
            r.is_some() == doc_valid(*d),
            r matches Some(t) ==> built_from(t, *d),
    {
        let file_patterns = match compile_opt(&d.file_patterns) {
            Some(ps) => ps,
            None => return None,
        };
        let rules = match &d.rules {
            None => None,
            Some(docs) => {
                let mut out: Vec<TemplateRule> = Vec::new();
                let mut i: usize = 0;
                while i < docs.len()
                    invariant
                        0 <= i <= docs.len(),
                        d.rules == Some(*docs),
                        out@.len() == i,
                        forall|j: int| 0 <= j < i ==> rule_built_from(#[trigger] out@[j], docs@[j]),
                        forall|j: int| 0 <= j < i ==> rule_doc_valid(#[trigger] docs@[j]),
                    decreases docs.len() - i,
                {
                    match TemplateRule::from_doc(&docs[i]) {
                        Some(rule) => out.push(rule),
                        None => {
                            assert(!rule_doc_valid(docs@[i as int]));
                            assert(d.rules->Some_0@[i as int] == docs@[i as int]);
                            assert(!doc_valid(*d));
                            return None;
                        },
                    }
                    i += 1;
                }
                Some(out)
            },
        };
        Some(Template { description: d.description.clone(), file_patterns, rules })
    }
}

/// Whether the entry is a directory with a valid descriptor.
pub open spec fn accepted(e: StarterEntry) -> bool {
    e.is_dir && (e.descriptor matches Some(d) && doc_valid(d))
}

/// The names of the accepted entries, in order.
pub open spec fn accepted_names(entries: Seq<StarterEntry>) -> Seq<Seq<char>>
    decreases entries.len(),
{
    if entries.len() == 0 {
        Seq::empty()
    } else if accepted(entries.last()) {
        accepted_names(entries.drop_last()).push(entries.last().name@)
    } else {
        accepted_names(entries.drop_last())
    }
}

/// The descriptors of the accepted entries, in order.
pub open spec fn accepted_docs(entries: Seq<StarterEntry>) -> Seq<TemplateDoc>
    decreases entries.len(),
{
    if entries.len() == 0 {
        Seq::empty()
    } else if accepted(entries.last()) {
        accepted_docs(entries.drop_last()).push(entries.last().descriptor->Some_0)
    } else {
        accepted_docs(entries.drop_last())
    }
}

/// The accepted names and descriptors correspond one to one.
proof fn lemma_accepted_lengths(entries: Seq<StarterEntry>)
    ensures
        accepted_names(entries).len() == accepted_docs(entries).len(),
    decreases entries.len(),
{
    if entries.len() > 0 {
        lemma_accepted_lengths(entries.drop_last());
    }
}

/// Builds the registry from the entries of the templates root: one
/// `(name, template)` pair for each directory whose descriptor is valid, in
/// the entries' order. Entries without a usable descriptor are skipped.
pub fn collect_templates(entries: &Vec<StarterEntry>) -> (r: Vec<(String, Template)>)
    ensures
        r@.len() == accepted_names(entries@).len(),
        forall|j: int|
            0 <= j < r@.len() ==> (#[trigger] r@[j]).0@ == accepted_names(entries@)[j] && built_from(
                r@[j].1,
                accepted_docs(entries@)[j],
            ),
{
    let mut out: Vec<(String, Template)> = Vec::new();
    let mut i: usize = 0;
    assert(entries@.take(0) =~= Seq::<StarterEntry>::empty());
    while i < entries.len()
        invariant
            0 <= i <= entries.len(),
            out@.len() == accepted_names(entries@.take(i as int)).len(),
            forall|j: int|
                0 <= j < out@.len() ==> (#[trigger] out@[j]).0@ == accepted_names(entries@.take(i as int))[j]
                    && built_from(out@[j].1, accepted_docs(entries@.take(i as int))[j]),
        decreases entries.len() - i,
    {
        let e = &entries[i];
        assert(entries@.take(i + 1).drop_last() =~= entries@.take(i as int));
        assert(entries@.take(i + 1).last() == entries@[i as int]);
        proof {
            lemma_accepted_lengths(entries@.take(i as int));
        }
        if e.is_dir {
            match &e.descriptor {
                Some(doc) => match Template::from_doc(doc) {
                    Some(t) => {
                        out.push((e.name.clone(), t));
                    },
                    None => {},
                },
                None => {},
            }
        }
        i += 1;
    }
    assert(entries@.take(i as int) =~= entries@);
    out
}

/// A starter whose descriptor is missing, unreadable or malformed is absent
/// from the registry: where no entry named `name` is accepted, no pair of
/// the registry carries that name.
pub proof fn lemma_broken_starter_absent(entries: Seq<StarterEntry>, name: Seq<char>)
    requires
        forall|i: int| 0 <= i < entries.len() && (#[trigger] entries[i]).name@ == name ==> !accepted(entries[i]),
    ensures
        !accepted_names(entries).contains(name),
    decreases entries.len(),
{
    if entries.len() > 0 {
        let rest = entries.drop_last();
        assert forall|i: int| 0 <= i < rest.len() && (#[trigger] rest[i]).name@ == name implies !accepted(rest[i]) by {
            assert(rest[i] == entries[i]);
        }
        lemma_broken_starter_absent(rest, name);
        if accepted(entries.last()) {
            assert(entries[entries.len() - 1] == entries.last());
            assert(accepted_names(entries) == accepted_names(rest).push(entries.last().name@));
            assert forall|j: int| 0 <= j < accepted_names(entries).len() implies accepted_names(entries)[j] != name by {
                if j < accepted_names(rest).len() {
                    assert(accepted_names(entries)[j] == accepted_names(rest)[j]);
                }
            }
        }
    }
}

} // verus!
