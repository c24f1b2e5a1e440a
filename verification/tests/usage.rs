use sgl_chat_stream::chunk::{clamp, Usage};
use sgl_chat_stream::request::{fresh_request_id, prompt_token_count, request_id_from};

#[test]
fn clamp_raises_negative_counts_to_zero() {
    assert_eq!(clamp(-1), 0);
    assert_eq!(clamp(i32::MIN), 0);
    assert_eq!(clamp(0), 0);
    assert_eq!(clamp(17), 17);
    assert_eq!(clamp(i32::MAX), 2147483647);
}

#[test]
fn usage_total_is_the_sum_of_the_clamped_counts() {
    assert_eq!(Usage::new(5, 2), Usage { prompt_tokens: 5, completion_tokens: 2, total_tokens: 7 });
    assert_eq!(Usage::new(-5, 2), Usage { prompt_tokens: 0, completion_tokens: 2, total_tokens: 2 });
    assert_eq!(Usage::new(5, -2), Usage { prompt_tokens: 5, completion_tokens: 0, total_tokens: 5 });
    assert_eq!(Usage::new(-5, -2), Usage { prompt_tokens: 0, completion_tokens: 0, total_tokens: 0 });
    assert_eq!(
        Usage::new(i32::MAX, i32::MAX),
        Usage { prompt_tokens: 2147483647, completion_tokens: 2147483647, total_tokens: 4294967294 }
    );
}

#[test]
fn usage_at_completion_prefers_the_recorded_counts() {
    let u = Usage::at_completion(Some(11), Some(4), 99, 98, Some(50), 3);
    assert_eq!(u, Usage { prompt_tokens: 11, completion_tokens: 4, total_tokens: 15 });
}

#[test]
fn usage_at_completion_falls_back_to_the_counts_of_the_event() {
    let u = Usage::at_completion(None, None, 9, 8, Some(50), 3);
    assert_eq!(u, Usage { prompt_tokens: 9, completion_tokens: 8, total_tokens: 17 });
}

#[test]
fn usage_at_completion_takes_the_initial_prompt_count_for_a_zero() {
    let u = Usage::at_completion(Some(0), Some(4), 9, 8, Some(50), 0);
    assert_eq!(u, Usage { prompt_tokens: 50, completion_tokens: 4, total_tokens: 54 });
    let v = Usage::at_completion(None, Some(4), 0, 8, Some(50), 0);
    assert_eq!(v, Usage { prompt_tokens: 50, completion_tokens: 4, total_tokens: 54 });
    let w = Usage::at_completion(None, Some(4), 0, 8, None, 0);
    assert_eq!(w, Usage { prompt_tokens: 0, completion_tokens: 4, total_tokens: 4 });
    let x = Usage::at_completion(None, Some(4), 0, 8, Some(-3), 0);
    assert_eq!(x, Usage { prompt_tokens: 0, completion_tokens: 4, total_tokens: 4 });
}

#[test]
fn usage_at_completion_counts_the_output_tokens_for_a_zero() {
    let u = Usage::at_completion(Some(7), Some(0), 0, 0, None, 3);
    assert_eq!(u, Usage { prompt_tokens: 7, completion_tokens: 3, total_tokens: 10 });
    let v = Usage::at_completion(Some(7), None, 0, 0, None, 12);
    assert_eq!(v, Usage { prompt_tokens: 7, completion_tokens: 12, total_tokens: 19 });
    let w = Usage::at_completion(Some(7), Some(0), 0, 5, None, 0);
    assert_eq!(w, Usage { prompt_tokens: 7, completion_tokens: 0, total_tokens: 7 });
    // A count that is there is not replaced by the number of output tokens.
    let x = Usage::at_completion(Some(7), Some(2), 0, 0, None, 12);
    assert_eq!(x, Usage { prompt_tokens: 7, completion_tokens: 2, total_tokens: 9 });
}

#[test]
fn usage_at_completion_clamps_negative_counts() {
    let u = Usage::at_completion(Some(-7), Some(-2), 1, 1, None, 12);
    assert_eq!(u, Usage { prompt_tokens: 0, completion_tokens: 0, total_tokens: 0 });
}

#[test]
fn usage_at_completion_holds_a_huge_number_of_output_tokens() {
    let u = Usage::at_completion(Some(1), Some(0), 0, 0, None, usize::MAX);
    assert_eq!(u, Usage { prompt_tokens: 1, completion_tokens: 2147483647, total_tokens: 2147483648 });
}

#[test]
fn prompt_token_count_saturates() {
    assert_eq!(prompt_token_count(0), 0);
    assert_eq!(prompt_token_count(42), 42);
    assert_eq!(prompt_token_count(2147483647), 2147483647);
    assert_eq!(prompt_token_count(2147483648), 2147483647);
    assert_eq!(prompt_token_count(usize::MAX), 2147483647);
}

#[test]
fn request_id_is_the_prefix_and_the_identifier() {
    assert_eq!(
        request_id_from("123e4567-e89b-42d3-a456-426614174000"),
        "chatcmpl-123e4567-e89b-42d3-a456-426614174000"
    );
    assert_eq!(request_id_from(""), "chatcmpl-");
}

#[test]
fn fresh_request_ids_are_hyphenated_and_differ() {
    let a = fresh_request_id();
    let b = fresh_request_id();
    assert_ne!(a, b);
    for id in [a, b] {
        assert!(id.starts_with("chatcmpl-"));
        let rest: Vec<char> = id["chatcmpl-".len()..].chars().collect();
        assert_eq!(rest.len(), 36);
        for (i, c) in rest.iter().enumerate() {
            if i == 8 || i == 13 || i == 18 || i == 23 {
                assert_eq!(*c, '-');
            } else {
                assert!(matches!(*c, '0'..='9' | 'a'..='f'));
            }
        }
    }
}
