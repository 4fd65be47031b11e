//! Text front-end and decoding rules of a mixed Chinese/English
//! voice-cloning speech synthesiser.
pub mod chars;
pub mod chinese;
pub mod chinese_g2p;
pub mod cleaned;
pub mod chronology;
pub mod chunker;
pub mod decoder;
pub mod english;
pub mod lazy_pinyin;
pub mod mmseg;
pub mod neutral_words;
pub mod num;
pub mod phonecode;
pub mod pinyin;
pub mod quantifier;
pub mod text_normalizer;
pub mod tone_sandhi;
