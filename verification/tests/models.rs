use reminder_bot::models::{
    arrange_language, begins_with, get_model_type, kind_of, model_list, name_no_later, sort_names,
    ModelKind,
};

fn names(list: &[&str]) -> Vec<String> {
    list.iter().map(|name| name.to_string()).collect()
}

#[test]
fn model_names_are_sorted_into_kinds() {
    assert_eq!(get_model_type("gpt-4o"), "自然語言模型");
    assert_eq!(get_model_type("chatgpt-4o-latest"), "自然語言模型");
    assert_eq!(get_model_type("text-davinci-003"), "自然語言模型");
    assert_eq!(get_model_type("dall-e-3"), "圖片生成模型");
    assert_eq!(get_model_type("whisper-1"), "語音識別模型");
    assert_eq!(get_model_type("tts-1-hd"), "文字轉語音模型");
    assert_eq!(get_model_type("text-embedding-3-small"), "文本嵌入模型");
    assert_eq!(get_model_type("babbage-002"), "其他模型");
    assert_eq!(get_model_type(""), "其他模型");
    assert_eq!(get_model_type("gp"), "其他模型");
}

#[test]
fn kinds_have_their_place_and_label() {
    assert_eq!(kind_of("gpt-4"), ModelKind::Language);
    assert_eq!(kind_of("text-embedding-ada-002"), ModelKind::Embedding);
    assert_eq!(ModelKind::from_position(0), ModelKind::Language);
    assert_eq!(ModelKind::from_position(1), ModelKind::Image);
    assert_eq!(ModelKind::from_position(2), ModelKind::Speech);
    assert_eq!(ModelKind::from_position(3), ModelKind::Voice);
    assert_eq!(ModelKind::from_position(4), ModelKind::Embedding);
    assert_eq!(ModelKind::from_position(5), ModelKind::Other);
    assert_eq!(ModelKind::Voice.label(), "文字轉語音模型");
    assert!(begins_with(&"gpt-4".to_string(), "gpt"));
    assert!(!begins_with(&"chatgpt".to_string(), "gpt"));
}

#[test]
fn names_are_ordered_as_in_a_dictionary() {
    assert!(name_no_later("", ""));
    assert!(name_no_later("", "a"));
    assert!(!name_no_later("a", ""));
    assert!(name_no_later("gpt-3.5", "gpt-4"));
    assert!(!name_no_later("gpt-4", "gpt-3.5"));
    assert!(name_no_later("gpt-4", "gpt-4"));
    assert!(name_no_later("gpt-4", "gpt-4o"));
    assert!(name_no_later("Z", "a"));
    assert!(name_no_later("z", "é"));
    let pool = ["", "a", "ab", "b", "gpt-4", "gpt-4o", "gpt-35", "é", "z", "模型", "\u{10000}", "\u{FFFF}"];
    for a in pool {
        for b in pool {
            assert_eq!(name_no_later(a, b), a <= b, "{a:?} {b:?}");
        }
    }
}

#[test]
fn sorting_agrees_with_the_standard_library() {
    let given = names(&["gpt-4", "dall-e-3", "", "gpt-4", "chatgpt", "a", "gpt-3.5-turbo", "模型"]);
    let mut expected = given.clone();
    expected.sort();
    assert_eq!(sort_names(&given), expected);
    assert_eq!(sort_names(&vec![]), Vec::<String>::new());
}

#[test]
fn chat_models_follow_the_last_gpt_model() {
    let sorted = names(&["chatgpt-a", "chatgpt-b", "gpt-3", "gpt-4", "text-davinci-003"]);
    assert_eq!(
        arrange_language(&sorted),
        names(&["gpt-3", "gpt-4", "chatgpt-a", "chatgpt-b", "text-davinci-003"])
    );
    let no_gpt = names(&["chatgpt-a", "text-davinci-002", "text-davinci-003"]);
    assert_eq!(
        arrange_language(&no_gpt),
        names(&["text-davinci-002", "chatgpt-a", "text-davinci-003"])
    );
    assert_eq!(arrange_language(&names(&["chatgpt-a"])), names(&["chatgpt-a"]));
    assert_eq!(arrange_language(&names(&["gpt-4"])), names(&["gpt-4"]));
    assert_eq!(arrange_language(&vec![]), Vec::<String>::new());
}

#[test]
fn the_list_shows_every_kind_that_has_models() {
    let given = names(&[
        "gpt-4",
        "chatgpt-4o-latest",
        "whisper-1",
        "gpt-3.5-turbo",
        "text-davinci-003",
        "dall-e-3",
        "dall-e-2",
    ]);
    assert_eq!(
        model_list(&given, 0),
        "V 自然語言模型 V\ngpt-3.5-turbo\ngpt-4\nchatgpt-4o-latest\ntext-davinci-003\n\n\
         V 圖片生成模型 V\ndall-e-2\ndall-e-3\n\n\
         V 語音識別模型 V\nwhisper-1"
    );
}

#[test]
fn the_list_can_show_one_kind() {
    let given = names(&["gpt-4", "whisper-1", "dall-e-3", "babbage-002", "tts-1"]);
    assert_eq!(model_list(&given, 1), "V 自然語言模型 V\ngpt-4");
    assert_eq!(model_list(&given, 2), "V 圖片生成模型 V\ndall-e-3");
    assert_eq!(model_list(&given, 3), "V 語音識別模型 V\nwhisper-1");
    assert_eq!(model_list(&given, 4), "V 文字轉語音模型 V\ntts-1");
    assert_eq!(model_list(&given, 6), "V 其他模型 V\nbabbage-002");
}

#[test]
fn a_list_without_models_says_so() {
    let given = names(&["gpt-4"]);
    assert_eq!(model_list(&given, 5), "沒有找到符合條件的模型");
    assert_eq!(model_list(&given, 7), "沒有找到符合條件的模型");
    assert_eq!(model_list(&given, -1), "沒有找到符合條件的模型");
    assert_eq!(model_list(&vec![], 0), "沒有找到符合條件的模型");
}
