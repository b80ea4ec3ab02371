use dsondt::memory::{
    bigrams, build_system_prompt, choose_memory_source, web_memory_to_add, KeywordQuery,
    MemorySource,
};
use dsondt::records::MemoryRow;

fn strings(v: &[&str]) -> Vec<String> {
    v.iter().map(|s| s.to_string()).collect()
}

fn row(content: &str) -> MemoryRow {
    MemoryRow {
        id: 1,
        content: content.to_string(),
        origin: "auto".to_string(),
        created_at: 0,
        updated_at: 0,
    }
}

#[test]
fn bigrams_ignore_case_and_white_space() {
    assert_eq!(bigrams("Ab C"), strings(&["ab", "bc"]));
    assert_eq!(bigrams("我喜欢猫"), strings(&["我喜", "喜欢", "欢猫"]));
}

#[test]
fn bigrams_of_short_texts() {
    assert_eq!(bigrams("X"), strings(&["x"]));
    assert_eq!(bigrams("  \t\n"), Vec::<String>::new());
    assert_eq!(bigrams(""), Vec::<String>::new());
}

#[test]
fn keyword_ranking_orders_by_overlap() {
    let q = KeywordQuery::new("我喜欢猫和狗");
    assert!(!q.is_blank());
    let texts = strings(&["今天天气很好", "我喜欢狗", "我喜欢猫和狗", "猫"]);
    let r = q.rank(&texts, 5);
    assert_eq!(r, strings(&["我喜欢猫和狗", "我喜欢狗"]));
}

#[test]
fn keyword_ranking_keeps_order_of_ties_and_truncates() {
    let q = KeywordQuery::new("abcd");
    let texts = strings(&["xab", "abz", "bcq", "abcd"]);
    assert_eq!(q.rank(&texts, 10), strings(&["abcd", "xab", "abz", "bcq"]));
    assert_eq!(q.rank(&texts, 2), strings(&["abcd", "xab"]));
    assert_eq!(q.rank(&texts, 0), Vec::<String>::new());
}

#[test]
fn keyword_threshold_is_more_than_one_in_twenty() {
    // 20 query bigrams: one hit is exactly 1/20 and does not count, two do.
    let q = KeywordQuery::new("abcdefghijklmnopqrstu");
    assert_eq!(q.grams.len(), 20);
    assert_eq!(q.rank(&strings(&["ab"]), 5), Vec::<String>::new());
    assert_eq!(q.rank(&strings(&["abc"]), 5), strings(&["abc"]));
}

#[test]
fn blank_keyword_query() {
    assert!(KeywordQuery::new("   ").is_blank());
    assert!(KeywordQuery::new("").is_blank());
}

#[test]
fn system_prompt_without_memories() {
    assert_eq!(build_system_prompt(&vec![]), "你是 DeepSeek，由深度求索公司创造的 AI 助手。");
}

#[test]
fn system_prompt_numbers_memories() {
    let p = build_system_prompt(&strings(&["喜欢猫", "住在北京"]));
    let expected = "你是 DeepSeek，由深度求索公司创造的 AI 助手。\n\n以下是与用户的长期记忆片段，请在回答时自然参考（不要刻意提及这些记忆的来源）：\n1. 喜欢猫\n2. 住在北京\n";
    assert_eq!(p, expected);
}

#[test]
fn system_prompt_numbers_past_nine() {
    let ms: Vec<String> = (0..11).map(|i| format!("m{i}")).collect();
    let p = build_system_prompt(&ms);
    assert!(p.ends_with("10. m9\n11. m10\n"));
}

#[test]
fn memory_source_prefers_vector_hits() {
    match choose_memory_source(Some(strings(&["a"]))) {
        MemorySource::Vector(v) => assert_eq!(v, strings(&["a"])),
        MemorySource::Keyword => panic!("expected vector hits"),
    }
    assert!(matches!(choose_memory_source(Some(vec![])), MemorySource::Keyword));
    assert!(matches!(choose_memory_source(None), MemorySource::Keyword));
}

#[test]
fn web_memory_is_trimmed_and_deduplicated() {
    assert_eq!(web_memory_to_add("  hello world \n", &vec![]), Some("hello world".to_string()));
    assert_eq!(web_memory_to_add("hello world", &vec![row("hello world")]), None);
    assert_eq!(web_memory_to_add("abc", &vec![]), None);
    assert_eq!(web_memory_to_add("   ", &vec![]), None);
    // Two Chinese characters are six bytes of UTF-8: long enough.
    assert_eq!(web_memory_to_add("猫狗", &vec![]), Some("猫狗".to_string()));
}
