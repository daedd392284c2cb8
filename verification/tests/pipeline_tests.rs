use slack_import_emojis::dataset::default_emoji_map;
use slack_import_emojis::dataset::DefaultEmojiRecord;
use slack_import_emojis::emoji_map::EmojiMap;
use slack_import_emojis::pipeline::assemble;
use slack_import_emojis::pipeline::output_text;
use slack_import_emojis::pipeline::plan_run;
use slack_import_emojis::pipeline::secondary_requested;
use slack_import_emojis::pipeline::PipelineError;
use slack_import_emojis::pipeline::RunPlan;
use slack_import_emojis::pipeline::DEFAULT_ARGUMENT;
use slack_import_emojis::pipeline::MISSING_TOKEN_MESSAGE;
use slack_import_emojis::pipeline::OUTPUT_PATH;
use slack_import_emojis::pipeline::TOKEN_VARIABLE;
use slack_import_emojis::platform::RawPlatformResponse;

fn text(s: &str) -> String {
    s.to_string()
}

fn args(words: &[&str]) -> Vec<String> {
    words.iter().map(|w| w.to_string()).collect()
}

fn map_of(pairs: &[(&str, &str)]) -> EmojiMap {
    let mut m = EmojiMap::new();
    for (name, url) in pairs {
        m.insert(text(name), text(url));
    }
    m
}

#[test]
fn fixed_names_of_a_run() {
    assert_eq!(OUTPUT_PATH, "emojis.json");
    assert_eq!(TOKEN_VARIABLE, "SLACK_TOKEN");
    assert_eq!(DEFAULT_ARGUMENT, "default");
    assert_eq!(MISSING_TOKEN_MESSAGE, "Error: SLACK_TOKEN environment variable is not set.");
}

#[test]
fn missing_token_gives_the_config_error_and_no_plan() {
    assert_eq!(plan_run(None, &args(&["prog"])), Err(PipelineError::Config));
    assert_eq!(plan_run(None, &args(&["prog", "default"])), Err(PipelineError::Config));
    assert_eq!(plan_run(None, &Vec::new()), Err(PipelineError::Config));
}

#[test]
fn empty_token_gives_the_config_error() {
    assert_eq!(plan_run(Some(String::new()), &args(&["prog", "default"])), Err(PipelineError::Config));
}

#[test]
fn token_without_argument_plans_the_primary_fetch_only() {
    assert_eq!(
        plan_run(Some(text("xoxb-1")), &args(&["prog"])),
        Ok(RunPlan { token: text("xoxb-1"), include_default: false })
    );
}

#[test]
fn token_with_default_argument_plans_both_fetches() {
    assert_eq!(
        plan_run(Some(text("xoxb-1")), &args(&["prog", "default"])),
        Ok(RunPlan { token: text("xoxb-1"), include_default: true })
    );
}

#[test]
fn only_the_first_argument_and_only_the_exact_word_count() {
    assert!(secondary_requested(&args(&["prog", "default"])));
    assert!(secondary_requested(&args(&["prog", "default", "more"])));
    assert!(!secondary_requested(&args(&["prog"])));
    assert!(!secondary_requested(&Vec::new()));
    assert!(!secondary_requested(&args(&["default"])));
    assert!(!secondary_requested(&args(&["prog", "Default"])));
    assert!(!secondary_requested(&args(&["prog", "defaults"])));
    assert!(!secondary_requested(&args(&["prog", ""])));
    assert!(!secondary_requested(&args(&["prog", "other", "default"])));
}

#[test]
fn each_error_has_its_line() {
    assert_eq!(
        PipelineError::Config.message(),
        "Error: SLACK_TOKEN environment variable is not set."
    );
    assert_eq!(PipelineError::Network(text("timed out")).message(), "Error: timed out");
    assert_eq!(PipelineError::Decode(text("expected value")).message(), "Error: expected value");
    assert_eq!(PipelineError::Io(text("permission denied")).message(), "Error: permission denied");
}

#[test]
fn platform_answer_without_error_gives_its_listing() {
    let raw = RawPlatformResponse {
        emoji: vec![(text("smile"), text("http://x/smile.png")), (text("grin"), text("alias:smile"))],
        error: None,
    };
    let m = raw.into_emoji_map().unwrap();
    assert_eq!(m.len(), 2);
    assert_eq!(m.get("smile"), Some(&text("http://x/smile.png")));
    assert_eq!(m.get("grin"), Some(&text("alias:smile")));
}

#[test]
fn platform_answer_with_error_is_a_decode_error() {
    let raw = RawPlatformResponse {
        emoji: vec![(text("smile"), text("http://x/smile.png"))],
        error: Some(text("invalid_auth")),
    };
    match raw.into_emoji_map() {
        Err(e) => assert_eq!(e, PipelineError::Decode(text("invalid_auth"))),
        Ok(_) => panic!("an answer with an error text gave a listing"),
    }
}

#[test]
fn assemble_without_secondary_is_the_primary() {
    let m = assemble(map_of(&[("a", "u1")]), None);
    assert_eq!(m.len(), 1);
    assert_eq!(m.get("a"), Some(&text("u1")));
}

#[test]
fn assemble_with_secondary_merges_it_in() {
    let m = assemble(map_of(&[("a", "u1"), ("c", "u4")]), Some(map_of(&[("a", "u2"), ("b", "u3")])));
    assert_eq!(m.len(), 3);
    assert_eq!(m.get("a"), Some(&text("u2")));
    assert_eq!(m.get("b"), Some(&text("u3")));
    assert_eq!(m.get("c"), Some(&text("u4")));
}

#[test]
fn run_without_default_writes_the_primary_listing() {
    let plan = plan_run(Some(text("token")), &args(&["prog"])).unwrap();
    assert!(!plan.include_default);
    let raw = RawPlatformResponse {
        emoji: vec![(text("smile"), text("http://x/smile.png"))],
        error: None,
    };
    let primary = raw.into_emoji_map().unwrap();
    assert_eq!(output_text(primary, None), Some(text("{\"smile\":\"http://x/smile.png\"}")));
}

#[test]
fn run_with_default_overrides_and_adds() {
    let plan = plan_run(Some(text("token")), &args(&["prog", "default"])).unwrap();
    assert!(plan.include_default);
    let primary = map_of(&[("a", "u1")]);
    let secondary = map_of(&[("a", "u2"), ("b", "u3")]);
    assert_eq!(output_text(primary, Some(secondary)), Some(text("{\"a\":\"u2\",\"b\":\"u3\"}")));
}

#[test]
fn run_with_default_dataset_writes_the_image_addresses() {
    let primary = map_of(&[("grinning", "http://x/custom.png"), ("team", "http://x/team.png")]);
    let records = vec![
        DefaultEmojiRecord { unified: text("1F600"), short_name: text("grinning"), has_img_twitter: true },
        DefaultEmojiRecord { unified: text("1F9D1"), short_name: text("adult"), has_img_twitter: false },
    ];
    let secondary = default_emoji_map(&records);
    assert_eq!(
        output_text(primary, Some(secondary)),
        Some(text(
            "{\"grinning\":\"https://cdn.jsdelivr.net/npm/emoji-datasource-twitter@15.1.2/img/twitter/64/1f600.png\",\"team\":\"http://x/team.png\"}"
        ))
    );
}
