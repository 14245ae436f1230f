//! Templates, their substitution rules, and how the rules rewrite a file.
use crate::pattern::{regex_is_match, regex_replace_all, Pattern};
use vstd::prelude::*;

verus! {

/// The values supplied by the caller for one generation run.
pub struct ArgsPlaceholder {
    pub lib_name: String,
    pub secret: String,
}

/// What a rule puts in place of each match of its pattern.
pub enum TemplateRuleKind {
    /// The project's library name.
    LibName,
    /// The generated secret.
    Secret,
    /// A literal replacement text.
    Any(String),
}

impl TemplateRuleKind {
    /// The replacement text of this kind for the given arguments.
    pub open spec fn value(&self, args: ArgsPlaceholder) -> Seq<char> {
        match self {
            TemplateRuleKind::LibName => args.lib_name@,
            TemplateRuleKind::Secret => args.secret@,
            TemplateRuleKind::Any(s) => s@,
        }
    }

    /// Whether `self` is the kind that the descriptor word `word` denotes: the
    /// two reserved words name their kinds, any other word is a literal.
    pub open spec fn denoted_by(&self, word: Seq<char>) -> bool {
        if word == "LibName"@ {
            *self is LibName
        } else if word == "Secret"@ {
            *self is Secret
        } else {
            self matches TemplateRuleKind::Any(s) && s@ == word
        }
    }

    /// Get the value from the rule kind.
    pub fn get_val(&self, args: &ArgsPlaceholder) -> (r: String)
        ensures
            r@ == self.value(*args),
    {
        match self {
            TemplateRuleKind::LibName => args.lib_name.clone(),
            TemplateRuleKind::Secret => args.secret.clone(),
            TemplateRuleKind::Any(s) => s.clone(),
        }
    }

    /// The kind that a descriptor word denotes.
    pub fn from_word(word: &str) -> (r: TemplateRuleKind)
        ensures
            r.denoted_by(word@),
    {
        let w = word.to_owned();
        let lib_name = "LibName".to_owned();
        let secret = "Secret".to_owned();
        if w == lib_name {
            TemplateRuleKind::LibName
        } else if w == secret {
            TemplateRuleKind::Secret
        } else {
            TemplateRuleKind::Any(w)
        }
    }
}

/// One placeholder replacement rule.
pub struct TemplateRule {
    /// Pattern searched in the file content.
    pub pattern: Pattern,
    /// What replaces each match.
    pub kind: TemplateRuleKind,
    /// Restricts the rule to the files whose path matches one of these.
    pub file_patterns: Option<Vec<Pattern>>,
}

/// One starter template.
pub struct Template {
    /// Human-readable description.
    pub description: String,
    /// Restricts generation to the files whose path matches one of these.
    pub file_patterns: Option<Vec<Pattern>>,
    /// The rules, applied in order.
    pub rules: Option<Vec<TemplateRule>>,
}

/// The patterns of an optional list, as a sequence.
pub open spec fn opt_patterns(ps: Option<Vec<Pattern>>) -> Option<Seq<Pattern>> {
    match ps {
        Some(v) => Some(v@),
        None => None,
    }
}

/// The patterns of an optional borrowed list, as a sequence.
pub open spec fn borrowed_patterns(ps: Option<&Vec<Pattern>>) -> Option<Seq<Pattern>> {
    match ps {
        Some(v) => Some(v@),
        None => None,
    }
}

/// Whether one of `pats` matches `path`.
pub open spec fn matches_any(pats: Seq<Pattern>, path: Seq<char>) -> bool {
    exists|i: int| 0 <= i < pats.len() && regex_is_match(#[trigger] pats[i]@, path)
}

/// A file is eligible when no patterns are given, or when it is a regular file
/// whose path one of the patterns matches.
pub open spec fn eligible(path: Seq<char>, is_file: bool, pats: Option<Seq<Pattern>>) -> bool {
    match pats {
        None => true,
        Some(ps) => is_file && matches_any(ps, path),
    }
}

/// Whether `rule` rewrites `content` of the file at `path`.
pub open spec fn rule_fires(rule: TemplateRule, path: Seq<char>, is_file: bool, content: Seq<char>) -> bool {
    eligible(path, is_file, opt_patterns(rule.file_patterns)) && regex_is_match(rule.pattern@, content)
}

/// The content after `rule` has been considered once.
pub open spec fn rule_step(
    rule: TemplateRule,
    path: Seq<char>,
    is_file: bool,
    args: ArgsPlaceholder,
    content: Seq<char>,
) -> Seq<char> {
    if rule_fires(rule, path, is_file, content) {
        regex_replace_all(rule.pattern@, content, rule.kind.value(args))
    } else {
        content
    }
}

/// The content after every rule of `rules`, first to last, has been considered.
pub open spec fn apply_all(
    rules: Seq<TemplateRule>,
    path: Seq<char>,
    is_file: bool,
    args: ArgsPlaceholder,
    content: Seq<char>,
) -> Seq<char>
    decreases rules.len(),
{
    if rules.len() == 0 {
        content
    } else {
        rule_step(rules.last(), path, is_file, args, apply_all(rules.drop_last(), path, is_file, args, content))
    }
}

/// Whether at least one rule of `rules` fires on the content it is given.
pub open spec fn any_fires(
    rules: Seq<TemplateRule>,
    path: Seq<char>,
    is_file: bool,
    args: ArgsPlaceholder,
    content: Seq<char>,
) -> bool
    decreases rules.len(),
{
    if rules.len() == 0 {
        false
    } else {
        any_fires(rules.drop_last(), path, is_file, args, content) || rule_fires(
            rules.last(),
            path,
            is_file,
            apply_all(rules.drop_last(), path, is_file, args, content),
        )
    }
}

/// Where no rule fires, the content is left as it was.
pub proof fn lemma_quiet_rules_keep_content(
    rules: Seq<TemplateRule>,
    path: Seq<char>,
    is_file: bool,
    args: ArgsPlaceholder,
    content: Seq<char>,
)
    requires
        !any_fires(rules, path, is_file, args, content),
    ensures
        apply_all(rules, path, is_file, args, content) == content,
    decreases rules.len(),
{
    if rules.len() > 0 {
        lemma_quiet_rules_keep_content(rules.drop_last(), path, is_file, args, content);
    }
}

/// Where no pattern of `rules` matches `content`, no rule fires and the
/// content is left as it was.
pub proof fn lemma_unmatched_rules_keep_content(
    rules: Seq<TemplateRule>,
    path: Seq<char>,
    is_file: bool,
    args: ArgsPlaceholder,
    content: Seq<char>,
)
    requires
        forall|i: int| 0 <= i < rules.len() ==> !regex_is_match(#[trigger] rules[i].pattern@, content),
    ensures
        !any_fires(rules, path, is_file, args, content),
        apply_all(rules, path, is_file, args, content) == content,
    decreases rules.len(),
{
    if rules.len() > 0 {
        let rest = rules.drop_last();
        assert forall|i: int| 0 <= i < rest.len() implies !regex_is_match(#[trigger] rest[i].pattern@, content) by {
            assert(rest[i] == rules[i]);
        }
        lemma_unmatched_rules_keep_content(rest, path, is_file, args, content);
        assert(rules.last() == rules[rules.len() - 1]);
    }
}

/// A rule whose pattern does not match the content it is given changes
/// nothing: the rules without it give the same content and fire exactly
/// when the rules with it do.
pub proof fn lemma_unmatched_rule_is_inert(
    rules: Seq<TemplateRule>,
    k: int,
    path: Seq<char>,
    is_file: bool,
    args: ArgsPlaceholder,
    content: Seq<char>,
)
    requires
        0 <= k < rules.len(),
        !regex_is_match(rules[k].pattern@, apply_all(rules.take(k), path, is_file, args, content)),
    ensures
        apply_all(rules, path, is_file, args, content) == apply_all(
            rules.remove(k),
            path,
            is_file,
            args,
            content,
        ),
        any_fires(rules, path, is_file, args, content) == any_fires(
            rules.remove(k),
            path,
            is_file,
            args,
            content,
        ),
    decreases rules.len(),
{
    let rest = rules.drop_last();
    if k == rules.len() - 1 {
        assert(rules.remove(k) =~= rest);
        assert(rules.take(k) =~= rest);
        assert(rules.last() == rules[k]);
    } else {
        assert(rest.take(k) =~= rules.take(k));
        assert(rest[k] == rules[k]);
        lemma_unmatched_rule_is_inert(rest, k, path, is_file, args, content);
        assert(rules.remove(k).drop_last() =~= rest.remove(k));
        assert(rules.remove(k).last() == rules.last());
    }
}

/// Once no pattern matches the substituted content any more, applying the
/// same rules to it again fires none of them and changes nothing.
pub proof fn lemma_rules_idempotent(
    rules: Seq<TemplateRule>,
    path: Seq<char>,
    is_file: bool,
    args: ArgsPlaceholder,
    content: Seq<char>,
)
    requires
        forall|i: int|
            0 <= i < rules.len() ==> !regex_is_match(
                #[trigger] rules[i].pattern@,
                apply_all(rules, path, is_file, args, content),
            ),
    ensures
        ({
            let done = apply_all(rules, path, is_file, args, content);
            &&& !any_fires(rules, path, is_file, args, done)
            &&& apply_all(rules, path, is_file, args, done) == done
        }),
{
    let done = apply_all(rules, path, is_file, args, content);
    lemma_unmatched_rules_keep_content(rules, path, is_file, args, done);
}

/// Rules apply in the order declared: a rule added last acts on what the
/// rules before it produced.
pub proof fn lemma_rule_order(
    rules: Seq<TemplateRule>,
    rule: TemplateRule,
    path: Seq<char>,
    is_file: bool,
    args: ArgsPlaceholder,
    content: Seq<char>,
)
    ensures
        apply_all(rules.push(rule), path, is_file, args, content) == rule_step(
            rule,
            path,
            is_file,
            args,
            apply_all(rules, path, is_file, args, content),
        ),
{
    assert(rules.push(rule).drop_last() =~= rules);
}

/// Of two rules, the first is applied fully, then the second to its result.
pub proof fn lemma_two_rules_in_order(
    first: TemplateRule,
    second: TemplateRule,
    path: Seq<char>,
    is_file: bool,
    args: ArgsPlaceholder,
    content: Seq<char>,
)
    ensures
        apply_all(seq![first, second], path, is_file, args, content) == rule_step(
            second,
            path,
            is_file,
            args,
            rule_step(first, path, is_file, args, content),
        ),
{
    assert(seq![first, second].drop_last() =~= seq![first]);
    assert(seq![first].drop_last() =~= Seq::<TemplateRule>::empty());
    assert(apply_all(Seq::<TemplateRule>::empty(), path, is_file, args, content) == content);
    assert(apply_all(seq![first], path, is_file, args, content) == rule_step(
        first,
        path,
        is_file,
        args,
        content,
    ));
}

impl Template {
    /// The rules of the template, none where the list is absent.
    pub open spec fn rule_seq(&self) -> Seq<TemplateRule> {
        match self.rules {
            Some(v) => v@,
            None => Seq::empty(),
        }
    }

    /// Whether the file at `path` is eligible under `patterns`.
    pub fn should_run_file(path: &str, is_file: bool, patterns: Option<&Vec<Pattern>>) -> (r: bool)
        ensures
            r == eligible(path@, is_file, borrowed_patterns(patterns)),
    {
        match patterns {
            None => true,
            Some(ps) => {
                if !is_file {
                    return false;
                }
                let mut i: usize = 0;
                while i < ps.len()
                    invariant
                        0 <= i <= ps.len(),
                        patterns == Some(ps),
                        is_file,
                        forall|j: int| 0 <= j < i ==> !regex_is_match(#[trigger] ps@[j]@, path@),
                    decreases ps.len() - i,
                {
                    if ps[i].is_match(path) {
                        assert(regex_is_match(ps@[i as int]@, path@));
                        assert(matches_any(ps@, path@));
                        return true;
                    }
                    i += 1;
                }
                false
            },
        }
    }

    /// Whether generation visits the entry at `path`: a regular file outside
    /// the build-output directory that the template's patterns admit.
    pub fn should_visit(&self, in_build_dir: bool, path: &str, is_file: bool) -> (r: bool)
        ensures
            r == (!in_build_dir && is_file && eligible(path@, is_file, opt_patterns(self.file_patterns))),
            !eligible(path@, is_file, opt_patterns(self.file_patterns)) ==> !r,
    {
        !in_build_dir && is_file && Self::should_run_file(path, is_file, self.file_patterns.as_ref())
    }

    /// Applies the rules in order to `content` of the file at `path`. Returns
    /// the new content where at least one rule fired, `None` where the file is
    /// to be left untouched.
    pub fn apply_rules(&self, path: &str, is_file: bool, content: &str, args: &ArgsPlaceholder) -> (r: Option<String>)
        ensures
            r.is_some() == any_fires(self.rule_seq(), path@, is_file, *args, content@),
            r matches Some(s) ==> s@ == apply_all(self.rule_seq(), path@, is_file, *args, content@),
            r.is_none() ==> apply_all(self.rule_seq(), path@, is_file, *args, content@) == content@,
    {
        let empty: Vec<TemplateRule> = Vec::new();
        let rules: &Vec<TemplateRule> = match &self.rules {
            Some(v) => v,
            None => &empty,
        };
        assert(rules@ == self.rule_seq());
        let mut current: String = content.to_owned();
        let mut changed: bool = false;
        let mut i: usize = 0;
        assert(rules@.take(0) =~= Seq::<TemplateRule>::empty());
        while i < rules.len()
            invariant
                0 <= i <= rules@.len(),
                rules@ == self.rule_seq(),
                current@ == apply_all(rules@.take(i as int), path@, is_file, *args, content@),
                changed == any_fires(rules@.take(i as int), path@, is_file, *args, content@),
            decreases rules.len() - i,
        {
            let rule = &rules[i];
            assert(rules@.take(i + 1).drop_last() =~= rules@.take(i as int));
            assert(rules@.take(i + 1).last() == rules@[i as int]);
            if Self::should_run_file(path, is_file, rule.file_patterns.as_ref()) && rule.pattern.is_match(
                current.as_str(),
            ) {
                let val = rule.kind.get_val(args);
                current = rule.pattern.replace_all(current.as_str(), val.as_str());
                changed = true;
            }
            i += 1;
        }
        assert(rules@.take(i as int) =~= rules@);
        if changed {
            Some(current)
        } else {
            proof {
                lemma_quiet_rules_keep_content(rules@, path@, is_file, *args, content@);
            }
            None
        }
    }
}

} // verus!
