//! Bucket derivation from titles.

use recurrent_events::path::{prefix_path, BucketKey};

#[test]
fn bucket_is_case_insensitive_three_char_prefix() {
    let a = prefix_path("Weekly Standup");
    let b = prefix_path("weekly lunch");
    assert_eq!(a, b);
    assert_eq!(a, BucketKey { c0: 'w', c1: 'e', c2: 'e' });
}

#[test]
fn bucket_distinct_prefixes() {
    let mor = prefix_path("Morning Run");
    let mov = prefix_path("Movie Night");
    let moo = prefix_path("Moon Phase");
    assert_eq!(mor, BucketKey { c0: 'm', c1: 'o', c2: 'r' });
    assert_eq!(mov, BucketKey { c0: 'm', c1: 'o', c2: 'v' });
    assert_eq!(moo, BucketKey { c0: 'm', c1: 'o', c2: 'o' });
    assert_ne!(mor, mov);
    assert_ne!(mor, moo);
    assert_ne!(mov, moo);
}

#[test]
fn bucket_keeps_non_letters() {
    let b = prefix_path("3-Day Sprint");
    assert_eq!(b, BucketKey { c0: '3', c1: '-', c2: 'd' });
}
