//! PinaKey: a Vietnamese input method core (Telex / VNI / VIQR) with verified contracts.

pub mod mode;
pub mod flag;
pub mod rules;
pub mod unicode;
pub mod utils;
pub mod spelling;
pub mod flattener;
pub mod cvc;
pub mod regex_call;
pub mod transform_spec;
pub mod transform;
pub mod rules_parser;
pub mod input_method_def;
pub mod engine;
pub mod config;
pub mod charset;
pub mod text;
pub mod mactab;
pub mod dict;
pub mod keysym;
pub mod action;
pub mod engine_core;
pub mod backspace;
pub mod recent;
pub mod order;
pub mod fuzzy;
pub mod emoji;
pub mod hex;
pub mod lookup;
pub mod shortcuts;
pub mod props;
pub mod transport;
pub mod inject;
pub mod x11;
pub mod display;
pub mod ibus_address;
pub mod ibus_signals;

pub use rules::{EffectType, Mark, Rule, Tone, Transformation};
pub use rules_parser::{
    build_input_method_from_pairs, get_appending_rule, parse_builtin_input_method, parse_input_method,
    parse_rules, parse_toneless_rule, parse_toneless_rules, InputMethod,
};
pub use input_method_def::{input_method_definitions, input_method_definitions_owned, is_simple_telex, InputMethodDefinition};
pub use engine::{new_engine, IEngine, PinaKeyEngine};
pub use flattener::flatten;
pub use utils::{
    add_mark_to_char, add_tone_to_char, find_tone_from_char, has_any_vietnamese_rune, has_any_vietnamese_vowel,
    is_punctuation_mark, is_vowel, is_word_break_symbol,
};
