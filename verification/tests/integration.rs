use poetry_pass::corpus::{default_poetry, default_words};
use poetry_pass::provider::Provider;
use poetry_pass::transform::{transform, transform_dual, transform_with_mode};
use poetry_pass::{generate, generate_chinese, DualMode, Generator, Mode, Source, TransformMode};
use std::collections::HashSet;

#[test]
fn test_default_generate() {
    let password = generate();
    assert!(!password.is_empty());
    assert!(password.contains('-'));
    assert!(!password.chars().any(|c| c as u32 > 127));
}

#[test]
fn test_chinese_mode() {
    let password = generate_chinese();
    assert!(!password.is_empty());
    assert!(password.chars().any(|c| c as u32 > 127));
}

#[test]
fn test_initials_mode() {
    let generator = Generator::new().initials();
    let password = generator.generate();
    assert!(!password.is_empty());
    let parts: Vec<&str> = password.split('-').collect();
    assert!(parts[0].len() < 10);
}

#[test]
fn test_multiple_generation() {
    let passwords = Generator::new().generate_multiple(10);
    assert_eq!(passwords.len(), 10);

    let unique: HashSet<_> = passwords.iter().collect();
    assert!(unique.len() > 7);
}

#[test]
fn test_with_source() {
    let (password, source) = Generator::new().generate_with_source();
    assert!(!password.is_empty());
    assert!(!source.is_empty());
    assert!(source.chars().any(|c| c as u32 > 127));
}

#[test]
fn test_transform_full_exact() {
    assert_eq!(transform("拼音", &Mode::PinyinFull), "pinyin");
    assert_eq!(transform("中国", &Mode::PinyinFull), "zhongguo");
}

#[test]
fn test_transform_initials_exact() {
    assert_eq!(transform("拼音", &Mode::PinyinInit), "py");
    assert_eq!(transform("中国", &Mode::PinyinInit), "zg");
}

#[test]
fn test_transform_chinese_identity() {
    assert_eq!(transform("中文密码", &Mode::Chinese), "中文密码");
}

#[test]
fn test_transform_drops_unreadable() {
    assert_eq!(transform("a中1", &Mode::PinyinFull), "zhong");
    assert_eq!(transform("a中1", &Mode::PinyinInit), "z");
}

#[test]
fn test_transform_dual_modes() {
    let parts = vec!["拼音".to_string(), "中国".to_string()];
    let dual = DualMode {
        front: Mode::PinyinFull,
        back: Mode::PinyinInit,
    };
    let r = transform_dual(&parts, &dual);
    assert_eq!(r, vec!["pinyin".to_string(), "zg".to_string()]);
}

#[test]
fn test_transform_with_mode_single() {
    let parts = vec!["拼音".to_string(), "中国".to_string()];
    let r = transform_with_mode(&parts, &TransformMode::Single(Mode::PinyinFull));
    assert_eq!(r, vec!["pinyin".to_string(), "zhongguo".to_string()]);
}

#[test]
fn test_initials_not_longer_than_source() {
    let s = "床前明月光";
    let init = transform(s, &Mode::PinyinInit);
    assert!(init.chars().count() <= s.chars().count());
}

#[test]
fn test_number_suffix_format() {
    let password = generate();
    let parts: Vec<&str> = password.split('-').collect();
    let last = parts[parts.len() - 1];
    assert_eq!(last.len(), 4);
    let n: u32 = last.parse().unwrap();
    assert!((1000..=9999).contains(&n));
}

#[test]
fn test_no_number_has_single_separator() {
    let password = Generator::new().no_number().generate();
    assert_eq!(password.split('-').count(), 2);
}

#[test]
fn test_round_trip_chinese_no_number() {
    let (password, source) = Generator::new().chinese().no_number().generate_with_source();
    assert_eq!(password, source);
}

#[test]
fn test_source_reproduces_password() {
    let (password, source) = Generator::new().no_number().generate_with_source();
    let parts: Vec<String> = source.split('-').map(|s| s.to_string()).collect();
    assert_eq!(parts.len(), 2);
    let transformed = transform_with_mode(&parts, &TransformMode::Single(Mode::PinyinFull));
    assert_eq!(password, format!("{}-{}", transformed[0], transformed[1]));
}

#[test]
fn test_capitalization_changes_letters_only() {
    let baseline = "shanshui-1234";
    let capped = Generator::apply_random_capitalization(baseline);
    assert_eq!(capped.len(), baseline.len());
    let mut changed = 0;
    for (a, b) in baseline.chars().zip(capped.chars()) {
        if a.is_ascii_alphabetic() {
            assert!(b == a || b == a.to_ascii_uppercase());
            if b != a {
                changed += 1;
            }
        } else {
            assert_eq!(a, b);
        }
    }
    assert!(changed >= 1 && changed <= 3);
}

#[test]
fn test_capitalization_without_letters() {
    assert_eq!(Generator::apply_random_capitalization("1234-5678"), "1234-5678");
}

#[test]
fn test_random_capitalize_generate() {
    let password = Generator::new().random_capitalize().generate();
    assert!(password.chars().any(|c| c.is_ascii_uppercase()));
}

#[test]
fn test_generate_multiple_zero() {
    let passwords = Generator::new().generate_multiple(0);
    assert!(passwords.is_empty());
}

#[test]
fn test_custom_separator() {
    let password = Generator::new().separator("_").generate();
    assert!(password.contains('_'));
    assert!(!password.contains('-'));
}

#[test]
fn test_empty_separator() {
    let password = Generator::new().separator("").no_number().generate();
    assert!(!password.chars().any(|c| c as u32 > 127));
}

#[test]
fn test_provider_draws_from_poetry() {
    let p = Provider::new(Source::Poetry);
    let line = p.get();
    assert!(default_poetry().contains(&line));
}

#[test]
fn test_provider_two_slot_corpora() {
    let p = Provider::new(Source::WordsPoetry);
    assert!(default_words().contains(&p.get_front()));
    assert!(default_poetry().contains(&p.get_back()));
}

#[test]
fn test_default_corpora_usable() {
    let poetry = default_poetry();
    let words = default_words();
    assert!(poetry.len() > 50);
    assert!(words.len() > 50);
    for line in poetry.iter().chain(words.iter()) {
        assert!(!line.is_empty());
        assert!(line.chars().any(|c| c as u32 > 127));
    }
}

#[test]
fn test_policy_chinese_sources() {
    let (_, source) = Generator::new()
        .words_poetry()
        .chinese()
        .no_number()
        .generate_with_source();
    let parts: Vec<&str> = source.split('-').collect();
    assert_eq!(parts.len(), 2);
    assert!(default_words().iter().any(|w| w == parts[0]));
    assert!(default_poetry().iter().any(|w| w == parts[1]));
}

#[test]
fn test_mixed_back_slot_is_poetry() {
    let (_, source) = Generator::new().chinese().no_number().generate_with_source();
    let parts: Vec<&str> = source.split('-').collect();
    assert_eq!(parts.len(), 2);
    assert!(default_poetry().iter().any(|w| w == parts[1]));
}

#[test]
fn test_dual_mode_builder() {
    let password = Generator::new()
        .words_words()
        .dual_mode(Mode::Chinese, Mode::PinyinInit)
        .no_number()
        .generate();
    let parts: Vec<&str> = password.split('-').collect();
    assert_eq!(parts.len(), 2);
    assert!(parts[0].chars().any(|c| c as u32 > 127));
    assert!(!parts[1].chars().any(|c| c as u32 > 127));
}

#[test]
fn test_front_full_back_init() {
    let password = Generator::new()
        .words_words()
        .front_full_back_init()
        .no_number()
        .generate();
    let parts: Vec<&str> = password.split('-').collect();
    assert_eq!(parts.len(), 2);
    assert!(parts[1].len() <= parts[0].len());
    assert!(!password.chars().any(|c| c as u32 > 127));
}

#[test]
fn test_default_corpora_keep_all_lines() {
    let poetry = default_poetry();
    assert_eq!(poetry.len(), 64);
    assert_eq!(poetry[0], "床前明月光");
    let words = default_words();
    assert_eq!(words.len(), 60);
    assert_eq!(words[0], "阳光");
}

#[test]
fn test_suffix_survives_capitalization() {
    let password = Generator::new().random_capitalize().generate();
    let n = password.len();
    let tail = &password[n - 4..];
    assert!(tail.chars().all(|c| c.is_ascii_digit()));
    assert_eq!(&password[n - 5..n - 4], "-");
}
