use sovits::cleaned::{with_title, CleanedText, Lang, SymbolTable, N_SYMBOLS};

fn strings(items: &[&str]) -> Vec<String> {
    items.iter().map(|s| s.to_string()).collect()
}

#[test]
fn phoneme_ids_of_symbols() {
    let table = SymbolTable::new();
    assert_eq!(table.symbols.len(), N_SYMBOLS);
    let ids = table.cleaned_text_to_sequence(&strings(&["HH", "AH0", "L", "OW1", "!"]));
    assert_eq!(ids, vec![51, 12, 62, 68, 0]);
    let ids = table.cleaned_text_to_sequence(&strings(&["AY1", "T", "IY1"]));
    assert_eq!(ids, vec![22, 80, 58]);
    assert_eq!(table.id_of("not-a-symbol"), 0);
    assert_eq!(table.id_of("…"), 321);
    assert!(ids.iter().all(|&i| i < N_SYMBOLS));
}

#[test]
fn spans_of_one_language_are_merged() {
    let mut ct = CleanedText::new();
    ct.push_span(vec![3, 55, 80], vec![], Lang::English, "IT".to_string());
    ct.push_span(vec![127, 134], vec![2], Lang::Chinese, "的".to_string());
    ct.push_span(vec![316, 232], vec![2], Lang::Chinese, "我".to_string());
    ct.push_span(vec![50, 88], vec![], Lang::English, "Go".to_string());
    ct.push_span(vec![1], vec![], Lang::English, "  ".to_string());
    ct.push_span(vec![7], vec![1], Lang::Chinese, " ".to_string());
    assert_eq!(ct.lang_list, vec![Lang::English, Lang::Chinese, Lang::English]);
    assert_eq!(ct.phones_list, vec![vec![3, 55, 80], vec![127, 134, 316, 232], vec![50, 88, 1]]);
    assert_eq!(ct.word2ph_list, vec![vec![], vec![2, 2], vec![]]);
    assert_eq!(ct.norm_text_list, strings(&["IT", "的我", "Go  "]));
}

#[test]
fn latin_only_chunk_is_one_english_span() {
    let mut ct = CleanedText::new();
    ct.push_span(vec![3, 52, 12], vec![], Lang::English, ". He".to_string());
    ct.push_span(vec![62, 68, 0], vec![], Lang::English, "llo!".to_string());
    assert_eq!(ct.lang_list, vec![Lang::English]);
    assert_eq!(ct.word2ph_list, vec![Vec::<usize>::new()]);
    assert_eq!(ct.phones_list, vec![vec![3, 52, 12, 62, 68, 0]]);
}

#[test]
fn first_pieces_get_a_heading_mark() {
    assert_eq!(with_title("你好", Lang::Chinese, true), "。你好");
    assert_eq!(with_title("IT", Lang::English, true), ". IT");
    assert_eq!(with_title("IT", Lang::English, false), "IT");
    assert_eq!(with_title("2025年", Lang::Chinese, true), "2025年");
    assert_eq!(with_title("", Lang::Chinese, true), "");
}

#[test]
fn alphabet_holds_the_replacement_marks() {
    let table = SymbolTable::new();
    assert_eq!(table.symbols[1], ",");
    assert_eq!(table.symbols[2], "-");
    assert_eq!(table.symbols[321], "…");
}
