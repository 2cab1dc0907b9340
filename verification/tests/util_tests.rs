use napcat_chat::util::{
    apply_rank_gate, build_message_summary, edit_distance_len, get_recommend_match, lcs_len,
    recommend_rank_of, recommend_rank_score, temp_file_name, RankScore,
};

fn chars(s: &str) -> Vec<char> {
    s.chars().collect()
}

#[test]
fn summaries() {
    assert_eq!(build_message_summary("  hello\r\n  world  "), "hello world");
    assert_eq!(build_message_summary("看[OP:image]图"), "看[图片]图");
    assert_eq!(build_message_summary(" \n\t "), "(无可读文本)");
    assert_eq!(build_message_summary(""), "(无可读文本)");
    let long = "字".repeat(500);
    assert_eq!(build_message_summary(&long).chars().count(), 360);
}

#[test]
fn summary_is_never_empty_or_long() {
    for m in ["", "a", "   x   ", &"ab ".repeat(400)] {
        let s = build_message_summary(m);
        let n = s.chars().count();
        assert!(n > 0 && n <= 360);
    }
}

#[test]
fn common_subsequence_and_distance() {
    assert_eq!(lcs_len(&chars("abcde"), &chars("ace")), 3);
    assert_eq!(lcs_len(&chars("abc"), &chars("xyz")), 0);
    assert_eq!(lcs_len(&chars("same"), &chars("same")), 4);
    assert_eq!(lcs_len(&chars("bc"), &chars("abcd")), 2);
    assert_eq!(edit_distance_len(&chars("kitten"), &chars("sitting")), 3);
    assert_eq!(edit_distance_len(&chars(""), &chars("abc")), 3);
    assert_eq!(edit_distance_len(&chars("same"), &chars("same")), 0);
}

#[test]
fn rank_scores() {
    assert!(matches!(recommend_rank_of("", "abc", 5), Some(RankScore::Final(6))));
    assert!(matches!(recommend_rank_of("abcd", "abc", 5), Some(RankScore::Final(7))));
    assert!(matches!(recommend_rank_of("bc", "abcd", 5), Some(RankScore::Scored { rank: 0, cells: 8 })));
    // "ab" vs "ax": lcs 1, distance 1 -> (2*(2-1)+1+1)=4, 16/2/2 = 4
    assert!(matches!(recommend_rank_of("ab", "ax", 5), Some(RankScore::Scored { rank: 4, cells: 4 })));
    assert!(matches!(recommend_rank_score("HeLLo", "say hello", 5), Some(RankScore::Scored { rank: 0, cells: 45 })));
    assert!(recommend_rank_of("", "x", i32::MAX).is_none());
}

#[test]
fn case_does_not_change_scores() {
    for (a, b) in [("HeLLo", "SAY hello"), ("ab", "AX"), ("Kitten", "sitting")] {
        let upper = recommend_rank_score(&a.to_uppercase(), &b.to_uppercase(), 5);
        let lower = recommend_rank_score(&a.to_lowercase(), &b.to_lowercase(), 5);
        let same = |x: &Option<RankScore>, y: &Option<RankScore>| match (x, y) {
            (Some(RankScore::Final(p)), Some(RankScore::Final(q))) => p == q,
            (Some(RankScore::Scored { rank: p, cells: c }), Some(RankScore::Scored { rank: q, cells: d })) => p == q && c == d,
            (None, None) => true,
            _ => false,
        };
        assert!(same(&upper, &lower));
    }
}

#[test]
fn rank_gate_and_match() {
    assert_eq!(apply_rank_gate(4, 3, 10), Some(14));
    assert_eq!(apply_rank_gate(2, 3, 10), Some(2));
    assert_eq!(apply_rank_gate(i32::MAX, 0, 1), None);
    assert!(get_recommend_match(2, 10));
    assert!(!get_recommend_match(10, 10));
}

#[test]
fn temporary_file_names() {
    assert_eq!(temp_file_name(Some("memory.json"), 1234), ".memory.json.tmp-1234");
    assert_eq!(temp_file_name(None, 7), ".data.json.tmp-7");
}

#[test]
fn summarising_twice_changes_nothing() {
    let long_words = "词语 ".repeat(200);
    let cut_after_word = format!("{}x{}", "a".repeat(358), " tail");
    let samples = [
        "  hello\r\n  world  ",
        "看[OP:image]图",
        "[OP:[OP:image]image]",
        "",
        " \t ",
        long_words.as_str(),
        cut_after_word.as_str(),
    ];
    for m in samples {
        let s = build_message_summary(m);
        assert_eq!(build_message_summary(&s), s.trim_end(), "{m:?}");
    }
}
