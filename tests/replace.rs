use rep_engine::pattern::{pattern_replacement, strip_boundary_tokens};
use rep_engine::position::LinePosition;
use rep_engine::replacer::{PipelineReplacer, Reply};
use rep_engine::splice::{splice, Match};

fn two_foo() -> (Vec<u8>, Vec<Match>, Vec<Vec<u8>>) {
    let src = b"foo bar foo".to_vec();
    let ms = vec![Match { beg: 0, end: 3 }, Match { beg: 8, end: 11 }];
    let reps = vec![b"baz".to_vec(), b"baz".to_vec()];
    (src, ms, reps)
}

#[test]
fn bulk_accept_replaces_both() {
    let (src, ms, reps) = two_foo();
    let out = splice(&src, &ms, &reps, &vec![true, true]);
    assert_eq!(out, b"baz bar baz".to_vec());
}

#[test]
fn decline_first_accept_second() {
    let (src, ms, reps) = two_foo();
    let out = splice(&src, &ms, &reps, &vec![false, true]);
    assert_eq!(out, b"foo bar baz".to_vec());
}

#[test]
fn decline_all_keeps_bytes() {
    let (src, ms, _) = two_foo();
    let reps = vec![b"longer text".to_vec(), Vec::new()];
    let out = splice(&src, &ms, &reps, &vec![false, false]);
    assert_eq!(out, src);
}

#[test]
fn replace_all_with_different_lengths() {
    let src = b"xaay aa z".to_vec();
    let ms = vec![Match { beg: 1, end: 3 }, Match { beg: 5, end: 7 }];
    let reps = vec![b"B".to_vec(), b"CCCC".to_vec()];
    let out = splice(&src, &ms, &reps, &vec![true, true]);
    assert_eq!(out, b"xBy CCCC z".to_vec());
}

#[test]
fn no_matches_copies_content() {
    let src = b"unchanged\n".to_vec();
    let out = splice(&src, &[], &Vec::new(), &Vec::new());
    assert_eq!(out, src);
}

#[test]
fn match_at_end_and_empty_content() {
    let src = b"abc".to_vec();
    let out = splice(&src, &[Match { beg: 1, end: 3 }], &vec![Vec::new()], &vec![true]);
    assert_eq!(out, b"a".to_vec());
    let empty: Vec<u8> = Vec::new();
    let out = splice(&empty, &[Match { beg: 0, end: 0 }], &vec![b"x".to_vec()], &vec![true]);
    assert_eq!(out, b"x".to_vec());
}

#[test]
fn engine_scenario_with_keys() {
    let (src, ms, _) = two_foo();
    let mut r = PipelineReplacer::new(b"foo", b"baz", false);
    assert!(r.admit_path(ms.len(), Some(b"/tmp/x/file.txt")));
    let mut reps = Vec::new();
    let mut accept = Vec::new();
    let keys = ['n', 'y'];
    for (k, m) in ms.iter().enumerate() {
        reps.push(r.replacement_for(&src[m.beg..m.end]).unwrap());
        assert!(r.needs_prompt());
        accept.push(r.answer(keys[k]) == Reply::Replace);
    }
    assert_eq!(splice(&src, &ms, &reps, &accept), b"foo bar baz".to_vec());
}

#[test]
fn all_key_stops_prompting() {
    let mut r = PipelineReplacer::new(b"foo", b"baz", false);
    assert!(r.needs_prompt());
    assert_eq!(r.answer('a'), Reply::Replace);
    assert!(!r.needs_prompt());
    r.is_interactive = false;
    let mut q = PipelineReplacer::new(b"foo", b"baz", false);
    q.is_interactive = false;
    assert!(!q.needs_prompt());
}

#[test]
fn keys_map_to_replies() {
    let mut r = PipelineReplacer::new(b"k", b"v", false);
    for k in ['Y', 'y', ' ', '\r', '\n'] {
        assert_eq!(r.answer(k), Reply::Replace);
    }
    assert!(r.needs_prompt());
    for k in ['N', 'n'] {
        assert_eq!(r.answer(k), Reply::Keep);
    }
    for k in ['Q', 'q'] {
        assert_eq!(r.answer(k), Reply::Quit);
    }
    for k in ['x', '1', 'Z'] {
        assert_eq!(r.answer(k), Reply::Retry);
    }
    assert!(r.needs_prompt());
    assert_eq!(r.answer('A'), Reply::Replace);
    assert!(!r.needs_prompt());
}

#[test]
fn same_file_twice_is_skipped() {
    let mut r = PipelineReplacer::new(b"foo", b"baz", false);
    assert!(r.admit_path(2, Some(b"/data/real.txt")));
    assert!(!r.admit_path(2, Some(b"/data/real.txt")));
    assert!(r.admit_path(1, Some(b"/data/other.txt")));
    assert!(r.errors.is_empty());
}

#[test]
fn empty_or_unresolved_is_skipped() {
    let mut r = PipelineReplacer::new(b"foo", b"baz", false);
    assert!(!r.admit_path(0, Some(b"/data/a.txt")));
    assert!(!r.admit_path(3, None));
    assert!(r.admit_path(1, Some(b"/data/a.txt")));
}

#[test]
fn pattern_round_trip() {
    let out = pattern_replacement(b"(ab)c", b"${1}c", b"abc");
    assert_eq!(out, Some(b"abc".to_vec()));
    let out = pattern_replacement(b"(ab)(c)", b"$1$2", b"abc");
    assert_eq!(out, Some(b"abc".to_vec()));
}

#[test]
fn unbraced_reference_takes_longest_name() {
    // `$1c` names a group called `1c`, which the pattern lacks.
    let out = pattern_replacement(b"(ab)c", b"$1c", b"abc");
    assert_eq!(out, Some(Vec::new()));
}

#[test]
fn pattern_expands_groups() {
    let out = pattern_replacement(b"(\\w+)@(\\w+)", b"$2 at $1", b"me@host");
    assert_eq!(out, Some(b"host at me".to_vec()));
    let r = PipelineReplacer::new(b"\\b(f)oo\\b", b"${1}u", true);
    assert_eq!(r.replacement_for(b"foo"), Some(b"fu".to_vec()));
    assert_eq!(r.get_regex_replacement(b"foo"), Some(b"fu".to_vec()));
}

#[test]
fn pattern_failures_give_none() {
    assert_eq!(pattern_replacement(b"(", b"x", b"("), None);
    assert_eq!(pattern_replacement(b"abc", b"x", b"xyz"), None);
    assert_eq!(pattern_replacement(b"a", b"x", &[0xff, 0xfe]), None);
    assert_eq!(pattern_replacement(b"a", &[0xff], b"a"), None);
}

#[test]
fn literal_mode_uses_template_verbatim() {
    let r = PipelineReplacer::new(b"foo", b"$1 baz", false);
    assert_eq!(r.replacement_for(b"foo"), Some(b"$1 baz".to_vec()));
}

#[test]
fn boundary_tokens_stripped() {
    assert_eq!(strip_boundary_tokens(b"\\bfoo\\b"), b"foo".to_vec());
    assert_eq!(strip_boundary_tokens(b"\\b\\bx\\b\\b"), b"x".to_vec());
    assert_eq!(strip_boundary_tokens(b"a\\bb"), b"a\\bb".to_vec());
    assert_eq!(strip_boundary_tokens(b"\\b"), Vec::<u8>::new());
    assert_eq!(strip_boundary_tokens(b""), Vec::<u8>::new());
}

#[test]
fn line_and_offset_of_matches() {
    let src = b"ab\ncd\nef".to_vec();
    let mut p = LinePosition::new();
    p.advance(&src, 1);
    assert_eq!(p.line_number(&src), 1);
    assert_eq!(p.offset_in_line(&src, 1), 1);
    p.advance(&src, 4);
    assert_eq!(p.line_number(&src), 2);
    assert_eq!(p.offset_in_line(&src, 4), 2);
    p.advance(&src, 7);
    assert_eq!(p.line_number(&src), 3);
    assert_eq!(p.offset_in_line(&src, 7), 2);
    assert_eq!(p.last_lf, 5);
}

#[test]
fn pattern_mode_template_without_reference_is_verbatim() {
    let r = PipelineReplacer::new(b"\\bf(o+)\\b", b"plain text", true);
    assert_eq!(r.get_regex_replacement(b"foo"), Some(b"plain text".to_vec()));
}

#[test]
fn pattern_mode_slice_that_no_longer_matches() {
    let r = PipelineReplacer::new(b"x", b"y", true);
    assert_eq!(r.get_regex_replacement(b"abc"), None);
    assert_eq!(r.replacement_for(b"abc"), None);
}
