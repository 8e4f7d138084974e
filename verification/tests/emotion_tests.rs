use eva_core::emotion::{Emotion, EmotionDetector};

#[test]
fn test_detect_happy() {
    let detector = EmotionDetector::new();
    assert_eq!(detector.detect("I'm so happy!"), Emotion::Happy);
    assert_eq!(detector.detect("This is great!"), Emotion::Happy);
}

#[test]
fn test_detect_sad() {
    let detector = EmotionDetector::new();
    assert_eq!(detector.detect("This is terrible"), Emotion::Sad);
    assert_eq!(detector.detect("I'm so disappointed"), Emotion::Sad);
}

#[test]
fn test_detect_angry() {
    let detector = EmotionDetector::new();
    assert_eq!(detector.detect("I'm so angry!"), Emotion::Angry);
    assert_eq!(detector.detect("This is frustrating"), Emotion::Angry);
}

#[test]
fn test_detect_excited() {
    let detector = EmotionDetector::new();
    assert_eq!(detector.detect("Wow, this is amazing!"), Emotion::Excited);
}

#[test]
fn test_detect_confused() {
    let detector = EmotionDetector::new();
    assert_eq!(detector.detect("I don't understand"), Emotion::Confused);
}

#[test]
fn test_detect_grateful() {
    let detector = EmotionDetector::new();
    assert_eq!(detector.detect("Thank you so much!"), Emotion::Grateful);
}

#[test]
fn test_detect_neutral() {
    let detector = EmotionDetector::new();
    assert_eq!(detector.detect("The sky is blue"), Emotion::Neutral);
}

#[test]
fn test_detect_scored_counts_matches() {
    let detector = EmotionDetector::new();
    let (emotion, score) = detector.detect_scored("Wow, this is amazing!");
    assert_eq!(emotion, Emotion::Excited);
    assert_eq!(score, 2);
}

#[test]
fn test_detect_is_case_insensitive() {
    let detector = EmotionDetector::new();
    assert_eq!(detector.detect("THANK YOU"), Emotion::Grateful);
}

#[test]
fn test_emotion_names() {
    assert_eq!(Emotion::Happy.name(), "Happy");
    assert_eq!(Emotion::Neutral.name(), "Neutral");
    assert_eq!(Emotion::Frustrated.name(), "Frustrated");
}
