//! Project starter templates: discovery of template descriptors and the
//! rule-based placeholder substitution applied to a starter's files.

mod pattern;
mod registry;
mod rules;

pub use pattern::{regex_is_match, regex_replace_all, regex_valid, Pattern};
pub use rules::{
    any_fires, apply_all, borrowed_patterns, eligible, matches_any, opt_patterns, rule_fires, rule_step,
    lemma_quiet_rules_keep_content, lemma_rule_order, lemma_rules_idempotent,
    lemma_two_rules_in_order, lemma_unmatched_rule_is_inert, lemma_unmatched_rules_keep_content,
    ArgsPlaceholder, Template, TemplateRule, TemplateRuleKind,
};
pub use registry::{
    accepted, accepted_docs, accepted_names, all_valid, built_from, collect_templates,
    compile_all, compiled_from, doc_valid, lemma_broken_starter_absent, opt_all_valid,
    opt_compiled_from, rule_built_from, rule_doc_valid, RuleDoc, StarterEntry, TemplateDoc,
    GENERATOR_FILE_NAME,
};
