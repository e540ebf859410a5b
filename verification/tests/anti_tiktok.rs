use reminder_bot::anti_tiktok::{contains_text, reply_to, tiktok_refuse};
use reminder_bot::text::chars_of;

#[test]
fn occurrences_are_found() {
    let found = |text: &str, needle: &str| contains_text(&chars_of(text), needle);
    assert!(found("see https://www.tiktok.com/@x", "tiktok.com"));
    assert!(found("tiktok.com", "tiktok.com"));
    assert!(found("atiktok.comb", "tiktok.com"));
    assert!(!found("tiktok.co", "tiktok.com"));
    assert!(!found("tiktok,com tik tok.com", "tiktok.com"));
    assert!(!found("", "tiktok.com"));
    assert!(found("", ""));
    assert!(found("abc", ""));
    assert!(found("aab", "ab"));
    assert!(found("抖音 douyin.com", "douyin.com"));
}

#[test]
fn occurrence_agrees_with_the_standard_library() {
    let texts = ["", "a", "ab", "aab", "abab", "xhslink.com", "http://xhslink.com/a", "xhslink.co"];
    for text in texts {
        for needle in ["", "a", "ab", "b", "abc", "xhslink.com"] {
            assert_eq!(contains_text(&chars_of(text), needle), text.contains(needle));
        }
    }
}

#[test]
fn xiaohongshu_gets_its_own_line() {
    let reply = reply_to("http://xhslink.com/a and tiktok.com", Some("no".to_string()));
    assert_eq!(reply, Some("# 小紅書仔閉嘴".to_string()));
    assert_eq!(reply_to("xhslink.com", None), Some("# 小紅書仔閉嘴".to_string()));
}

#[test]
fn short_video_links_get_the_drawn_refusal() {
    assert_eq!(reply_to("https://www.tiktok.com/x", Some("不要".to_string())), Some("# 不要".to_string()));
    assert_eq!(reply_to("https://v.douyin.com/x", Some("不要".to_string())), Some("# 不要".to_string()));
    assert_eq!(reply_to("https://v.douyin.com/x", None), Some("# 抖音仔閉嘴".to_string()));
}

#[test]
fn other_messages_get_no_reply() {
    assert_eq!(reply_to("hello", Some("不要".to_string())), None);
    assert_eq!(reply_to("", None), None);
    assert_eq!(tiktok_refuse("hello", &vec!["a".to_string()]), None);
}

#[test]
fn the_refusal_is_drawn_from_the_list() {
    let messages = vec!["one".to_string(), "two".to_string(), "three".to_string()];
    let mut seen = [false; 3];
    for _ in 0..400 {
        let reply = tiktok_refuse("tiktok.com", &messages).unwrap();
        let at = messages.iter().position(|m| reply == format!("# {m}")).unwrap();
        seen[at] = true;
    }
    assert_eq!(seen, [true, true, true]);
    assert_eq!(tiktok_refuse("tiktok.com", &vec![]), Some("# 抖音仔閉嘴".to_string()));
    assert_eq!(tiktok_refuse("douyin.com", &vec!["only".to_string()]), Some("# only".to_string()));
}
