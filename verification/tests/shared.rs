use chew_tts::arith::div_up;
use chew_tts::catalog::{comes_before, has_tensor, sort_by_name, sum_bytes, TensorInfo};
use chew_tts::edit::{
    collapse, find_first, is_blank, replace_all, replace_first, to_ascii_lower, trim,
};
use chew_tts::layout::{
    joined_rows, position_major, repeated_rows, rows_with, sum_of, transposed,
};
use chew_tts::text::{
    chars_of, string_of, to_bracketed, to_decimal, to_signed_decimal, to_wide_decimal,
};
use chew_tts::weights::{Absence, Complaint, Loader, TensorSpec, Role};

fn chars(s: &str) -> Vec<char> {
    chars_of(s)
}

fn info(name: &str, bytes: usize) -> TensorInfo {
    TensorInfo { name: name.to_string(), shape: vec![], bytes }
}

#[test]
fn blanks_are_those_of_unicode() {
    for code in 0..=0x10ffffu32 {
        if let Some(c) = char::from_u32(code) {
            assert_eq!(is_blank(c), c.is_whitespace(), "{code:x}");
        }
    }
}

#[test]
fn words_are_kept_when_blanks_collapse() {
    for text in ["  a  b\tc\n", "", " \u{3000} ", "x", "é\u{a0}ü"] {
        let expected = text.split_whitespace().collect::<Vec<_>>().join(" ");
        assert_eq!(string_of(&collapse(&chars(text))), expected);
        assert_eq!(string_of(&trim(&chars(text))), text.trim());
        assert_eq!(string_of(&to_ascii_lower(&chars(text))), text.to_ascii_lowercase());
    }
}

#[test]
fn parts_are_found_and_replaced() {
    for (text, from, to) in [
        ("aXbX", "X", "--"),
        ("aaaa", "aa", "b"),
        ("abc", "d", "e"),
        ("", "x", "y"),
    ] {
        assert_eq!(
            string_of(&replace_all(&chars(text), &chars(from), &chars(to))),
            text.replace(from, to)
        );
        assert_eq!(
            string_of(&replace_first(&chars(text), &chars(from), &chars(to))),
            text.replacen(from, to, 1)
        );
        assert_eq!(find_first(&chars(text), &chars(from)), text.find(from));
    }
    assert_eq!(find_first(&chars("ab"), &chars("")), Some(0));
}

#[test]
fn numbers_are_written_in_decimal() {
    assert_eq!(to_decimal(0), "0");
    assert_eq!(to_decimal(u64::MAX), u64::MAX.to_string());
    assert_eq!(to_wide_decimal(u128::MAX), u128::MAX.to_string());
    assert_eq!(to_signed_decimal(i32::MIN), i32::MIN.to_string());
    assert_eq!(to_bracketed(&[]), format!("{:?}", Vec::<usize>::new()));
    assert_eq!(to_bracketed(&[1, 20, 3]), "[1, 20, 3]");
}

#[test]
fn quotients_are_rounded_up() {
    assert_eq!(div_up(0, 5), 0);
    assert_eq!(div_up(10, 5), 2);
    assert_eq!(div_up(11, 5), 3);
}

#[test]
fn transposing_twice_changes_nothing() {
    let data: Vec<u32> = (0..12).collect();
    let once = transposed(&data, 3, 4);
    assert_eq!(&once[..4], &[0, 4, 8, 1]);
    assert_eq!(transposed(&once, 4, 3), data);
}

#[test]
fn heads_move_behind_positions() {
    let data: Vec<u32> = (0..12).collect();
    assert_eq!(
        position_major(&data, 2, 3, 2),
        vec![0, 1, 6, 7, 2, 3, 8, 9, 4, 5, 10, 11]
    );
}

#[test]
fn rows_are_joined() {
    assert_eq!(
        joined_rows(&[1, 2, 3, 4], &[5, 6], 2, 2, 1),
        vec![1, 2, 5, 3, 4, 6]
    );
    assert_eq!(rows_with(&[1, 2, 3, 4], &[9], 2, 2), vec![1, 2, 9, 3, 4, 9]);
}

#[test]
fn rows_are_repeated_by_their_counts() {
    let out = repeated_rows(&[1, 2, 3, 4, 5, 6], 2, &[2, 0, 1]);
    assert_eq!(out, vec![1, 2, 1, 2, 5, 6]);
    assert_eq!(out.len(), 2 * sum_of(&[2, 0, 1]));
}

#[test]
fn inventories_are_sorted_and_summed() {
    let list = vec![info("b", 1), info("a", 2), info("é", 3), info("b", 4)];
    assert_eq!(sum_bytes(&list), 10);
    let sorted = sort_by_name(list);
    let order: Vec<(String, usize)> = sorted.iter().map(|t| (t.name.clone(), t.bytes)).collect();
    assert_eq!(
        order,
        vec![
            ("a".to_string(), 2),
            ("b".to_string(), 1),
            ("b".to_string(), 4),
            ("é".to_string(), 3)
        ]
    );
    assert!(has_tensor(&sorted, "é"));
    assert!(!has_tensor(&sorted, "c"));
    assert!(comes_before("a", "ab"));
    assert!(!comes_before("b", "ab"));
}

#[test]
fn complaints_show_what_was_found() {
    let spec = |complaint| TensorSpec {
        name: "n".to_string(),
        shape: vec![2, 3],
        complaint,
        role: Role::Plain,
    };
    let text = |complaint| spec(complaint).check(&[4]).unwrap_err();
    assert_eq!(text(Complaint::expected()), "n has shape [4], expected [2, 3]");
    assert_eq!(
        text(Complaint::labelled("l".to_string())),
        "l has shape [4], expected [2, 3]"
    );
    assert_eq!(text(Complaint::got()), "n: got [4], expected [2, 3]");
    assert_eq!(text(Complaint::fixed("f".to_string())), "f");
    assert_eq!(text(Complaint::found("at ".to_string())), "at [4]");
    assert!(spec(Complaint::got()).check(&[2, 3]).is_ok());
}

#[test]
fn complaints_tell_what_is_absent() {
    let text = |complaint: Complaint, absence| {
        TensorSpec {
            name: "n".to_string(),
            shape: vec![2],
            complaint: complaint.gone(absence),
            role: Role::Plain,
        }
        .absent()
    };
    let label = || Complaint::labelled("the l".to_string());
    assert_eq!(text(Complaint::got(), Absence::NotFound), "tensor not found: n");
    assert_eq!(text(Complaint::expected(), Absence::Unloaded), "could not load n");
    assert_eq!(text(label(), Absence::Unloaded), "could not load the l");
    assert_eq!(text(Complaint::got(), Absence::UnloadedFlow), "could not load Chatterbox flow n");
    assert_eq!(text(label(), Absence::Missing), "the l is missing");
    assert_eq!(text(label(), Absence::MissingKokoro), "Kokoro tensor n is missing");
}

#[test]
fn shapes_are_looked_at_once_a_group_is_found() {
    let mut loader = Loader::new();
    loader.vector("a".to_string(), 5, Complaint::got().before(1));
    loader.vector("b".to_string(), 6, Complaint::got());
    loader.vector("c".to_string(), 7, Complaint::got().before(3));
    let listed = |name: &str, size: usize| TensorInfo {
        name: name.to_string(),
        shape: vec![size],
        bytes: 0,
    };
    assert_eq!(loader.check(&[listed("a", 1)]).unwrap_err(), "tensor not found: b");
    assert_eq!(
        loader.check(&[listed("a", 1), listed("b", 1)]).unwrap_err(),
        "a: got [1], expected [5]"
    );
    assert_eq!(
        loader.check(&[listed("a", 5), listed("b", 6), listed("c", 1)]).unwrap_err(),
        "c: got [1], expected [7]"
    );
    assert!(loader.check(&[listed("a", 5), listed("b", 6), listed("c", 7)]).is_ok());
}

#[test]
fn buffers_follow_the_tensors() {
    let mut loader = Loader::new();
    let a = loader.vector("a".to_string(), 5, Complaint::got());
    let b = loader.matrix("b".to_string(), 2, 3, Complaint::got());
    let c = loader.cube("c".to_string(), 2, 3, 4, Complaint::got());
    assert_eq!((a, b, c), (0, 1, 2));
    let plan = loader.into_plan();
    assert_eq!(plan.count(), 3);
    assert_eq!((plan.size(0), plan.size(1), plan.size(2)), (5, 6, 24));
}

#[test]
fn the_first_tensor_that_cannot_be_loaded_is_told() {
    let mut loader = Loader::new();
    loader.vector("a".to_string(), 5, Complaint::got());
    loader.matrix("b".to_string(), 2, 3, Complaint::expected());
    let listed = |name: &str, shape: &[usize]| TensorInfo {
        name: name.to_string(),
        shape: shape.to_vec(),
        bytes: 0,
    };
    assert!(loader.check(&[listed("b", &[2, 3]), listed("a", &[5])]).is_ok());
    assert_eq!(
        loader.check(&[listed("a", &[5])]).unwrap_err(),
        "could not load b"
    );
    assert_eq!(loader.check(&[]).unwrap_err(), "tensor not found: a");
    assert_eq!(
        loader.check(&[listed("a", &[4]), listed("b", &[3, 2])]).unwrap_err(),
        "a: got [4], expected [5]"
    );
    assert_eq!(
        loader.check(&[listed("b", &[2, 3]), listed("a", &[5]), listed("b", &[6])]).unwrap_err(),
        "b has shape [6], expected [2, 3]"
    );
}
