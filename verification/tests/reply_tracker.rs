use std::time::Duration;

use openclaw_speak::daemon::{
    decide_reply, is_stale_playback, AssistantReply, ReplyDecision, ReplyTracker,
};

fn reply(text: &str, fingerprint: &str) -> AssistantReply {
    AssistantReply {
        text: text.to_string(),
        fingerprint: fingerprint.to_string(),
    }
}

#[test]
fn identical_fingerprint_is_never_spoken_twice() {
    let mut tracker = ReplyTracker::new(Duration::from_secs(0));
    let reply = AssistantReply {
        text: "Earlier reply".to_string(),
        fingerprint: "id:msg-1".to_string(),
    };

    assert!(tracker.should_speak("session-1", &reply));
    assert!(!tracker.should_speak("session-1", &reply));
}

#[test]
fn same_text_with_new_fingerprint_still_speaks() {
    let mut tracker = ReplyTracker::new(Duration::from_secs(60));
    let first = AssistantReply {
        text: "Repeated wording".to_string(),
        fingerprint: "id:msg-1".to_string(),
    };
    let second = AssistantReply {
        text: "Repeated wording".to_string(),
        fingerprint: "id:msg-2".to_string(),
    };

    assert!(tracker.should_speak("session-1", &first));
    assert!(tracker.should_speak("session-1", &second));
}

#[test]
fn sessions_are_tracked_apart() {
    let mut tracker = ReplyTracker::new(Duration::from_secs(0));
    let r = reply("hello", "id:msg-1");
    assert!(tracker.should_speak("session-1", &r));
    assert!(tracker.should_speak("session-2", &r));
    assert!(!tracker.should_speak("session-1", &r));
    assert!(!tracker.should_speak("session-2", &r));
}

#[test]
fn only_the_last_fingerprint_is_remembered() {
    let mut tracker = ReplyTracker::new(Duration::from_secs(0));
    let a = reply("a", "id:a");
    let b = reply("b", "id:b");
    assert!(tracker.should_speak("s", &a));
    assert!(tracker.should_speak("s", &b));
    // `a` is no longer the last one spoken, so it is spoken again.
    assert!(tracker.should_speak("s", &a));
    assert!(!tracker.should_speak("s", &a));
}

#[test]
fn fresh_tracker_speaks_an_empty_fingerprint() {
    let mut tracker = ReplyTracker::new(Duration::from_secs(5));
    assert!(tracker.should_speak("", &reply("", "")));
    assert!(!tracker.should_speak("", &reply("other text", "")));
}

#[test]
fn decide_reply_speaks_then_reports_already_spoken() {
    let mut tracker = ReplyTracker::new(Duration::from_secs(0));
    assert_eq!(
        decide_reply(&mut tracker, "s", Some(reply("Hi there", "id:1"))),
        ReplyDecision::Speak("Hi there".to_string())
    );
    assert_eq!(
        decide_reply(&mut tracker, "s", Some(reply("Hi there", "id:1"))),
        ReplyDecision::AlreadySpoken
    );
    assert_eq!(decide_reply(&mut tracker, "s", None), ReplyDecision::NoReplyYet);
    // A missing reply changes nothing: the same reply is still refused.
    assert_eq!(
        decide_reply(&mut tracker, "s", Some(reply("Hi there", "id:1"))),
        ReplyDecision::AlreadySpoken
    );
}

#[test]
fn stale_playback_only_when_interrupting() {
    assert!(is_stale_playback(true, 1, 2));
    assert!(!is_stale_playback(true, 2, 2));
    assert!(!is_stale_playback(false, 1, 2));
}
