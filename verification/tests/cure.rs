use revanced_discord_bot::model::application::CensorConfiguration;
use revanced_discord_bot::utils::cure_names::{cure, init_censor};

fn censor(additions: &[&str], removals: &[&str]) -> censor::Censor {
    init_censor(&CensorConfiguration {
        additions: additions.iter().map(|s| s.to_string()).collect(),
        removals: removals.iter().map(|s| s.to_string()).collect(),
    })
}

#[test]
fn init_censor_adds_then_removes() {
    let c = censor(&["banana"], &["ass", "banana"]);
    assert!(!c.contains("banana"));
    assert!(!c.contains("ass"));
    assert!(c.contains("bitch"));
    let c = censor(&["banana"], &[]);
    assert!(c.contains("banana"));
    let standard = censor(&[], &[]);
    assert_eq!(standard.set().len(), 15);
    assert!(standard.contains("ass") && standard.contains("whore") && !standard.contains("banana"));
}

#[test]
fn cure_renames_fancy_names() {
    let c = censor(&[], &[]);
    assert_eq!(cure(false, &None, &"ｖＥｒｙ Nice".to_string(), &c).as_deref(), Some("very nice"));
    assert_eq!(cure(false, &None, &"very nice".to_string(), &c), None);
    assert_eq!(cure(false, &None, &"Very Nice".to_string(), &c), None);
}

#[test]
fn cure_falls_back_for_bad_names() {
    let c = censor(&["banana"], &[]);
    assert_eq!(cure(false, &None, &"123abc".to_string(), &c).as_deref(), Some("ReVanced member"));
    assert_eq!(cure(false, &None, &"!!!".to_string(), &c).as_deref(), Some("ReVanced member"));
    assert_eq!(cure(false, &None, &"banana split".to_string(), &c).as_deref(), Some("ReVanced member"));
}

#[test]
fn cure_skips_bots_and_unchanged_names() {
    let c = censor(&[], &[]);
    assert_eq!(cure(true, &None, &"ｖＥｒｙ".to_string(), &c), None);
    assert_eq!(cure(false, &Some("ｖＥｒｙ".to_string()), &"ｖＥｒｙ".to_string(), &c), None);
}
