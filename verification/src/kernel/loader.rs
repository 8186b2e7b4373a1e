//! Compiling and loading kernels: where headers lie, which architecture is
//! targeted, and which version the compiled text may declare.
use vstd::prelude::*;
use vstd::string::*;
use crate::catalog::{comes_before, lemma_precedes_total, lemma_precedes_transitive, precedes};
use crate::edit::{find_first, found_from, replace_first, replaced_once};
use crate::text::{chars_of, code_point, decimal, string_of, to_decimal};

verus! {

/// What can go wrong with kernels.
#[derive(Debug)]
pub enum KernelError {
    Compile(String),
    Load(String),
    Launch(String),
    Cublas(String),
}

impl KernelError {
    /// What is said of the error.
    pub open spec fn text(self) -> Seq<char> {
        match self {
            KernelError::Compile(reason) => "kernel compile failed: "@ + reason@,
            KernelError::Load(reason) => "kernel load failed: "@ + reason@,
            KernelError::Launch(reason) => "kernel launch failed: "@ + reason@,
            KernelError::Cublas(reason) => "cuBLAS error: "@ + reason@,
        }
    }

    /// What is said of the error.
    pub fn message(&self) -> (text: String)
        ensures
            text@ == self.text(),
    {
        match self {
            KernelError::Compile(reason) => "kernel compile failed: ".to_owned().concat(
                reason.as_str(),
            ),
            KernelError::Load(reason) => "kernel load failed: ".to_owned().concat(reason.as_str()),
            KernelError::Launch(reason) => "kernel launch failed: ".to_owned().concat(
                reason.as_str(),
            ),
            KernelError::Cublas(reason) => "cuBLAS error: ".to_owned().concat(reason.as_str()),
        }
    }
}

/// The newest version that a driver understands, where it is known.
pub open spec fn newest_version(driver: u32) -> Option<(u32, u32)> {
    if driver >= 13010 {
        Some((9, 1))
    } else if driver >= 13000 {
        Some((9, 0))
    } else if driver >= 12080 {
        Some((8, 8))
    } else if driver >= 12060 {
        Some((8, 6))
    } else {
        None
    }
}

/// Whether `c` is a decimal digit.
pub open spec fn is_digit(c: char) -> bool {
    '0' <= c && c <= '9'
}

/// How many digits stand at the start of `s`.
pub open spec fn leading_digits(s: Seq<char>) -> int
    decreases s.len(),
{
    if s.len() == 0 || !is_digit(s[0]) {
        0
    } else {
        1 + leading_digits(s.skip(1))
    }
}

/// The number that digits stand for.
pub open spec fn digits_value(s: Seq<char>) -> nat
    decreases s.len(),
{
    if s.len() == 0 {
        0
    } else {
        10 * digits_value(s.drop_last()) + (s.last() as int - '0' as int) as nat
    }
}

/// Every character is a digit.
pub open spec fn all_digits(s: Seq<char>) -> bool {
    forall|i: int| 0 <= i < s.len() ==> is_digit(#[trigger] s[i])
}

/// A text without the plus sign it may start with.
pub open spec fn unsigned_part(s: Seq<char>) -> Seq<char> {
    if s.len() > 0 && s[0] == '+' {
        s.skip(1)
    } else {
        s
    }
}

/// The number that a text stands for: digits, with a plus sign in front or
/// not.
pub open spec fn parsed(s: Seq<char>) -> Option<u32> {
    let digits = unsigned_part(s);
    if digits.len() > 0 && all_digits(digits) && digits_value(digits) <= u32::MAX {
        Some(digits_value(digits) as u32)
    } else {
        None
    }
}

proof fn lemma_value_grows(s: Seq<char>, n: int)
    requires
        0 <= n <= s.len(),
        all_digits(s),
    ensures
        digits_value(s.take(n)) <= digits_value(s),
    decreases s.len() - n,
{
    if n == s.len() {
        assert(s.take(n) =~= s);
    } else {
        assert(s.take(n + 1).drop_last() =~= s.take(n));
        assert(is_digit(s[n]));
        lemma_value_grows(s, n + 1);
    }
}

/// The number that part of a text stands for.
fn parse(s: &Vec<char>, from: usize, to: usize) -> (number: Option<u32>)
    requires
        from <= to <= s@.len(),
    ensures
        number == parsed(s@.subrange(from as int, to as int)),
{
    let ghost whole = s@.subrange(from as int, to as int);
    let start: usize = if from < to && code_point(s[from]) == 43 {
        from + 1
    } else {
        from
    };
    let ghost digits = s@.subrange(start as int, to as int);
    proof {
        if from < to {
            assert(whole[0] == s@[from as int]);
            assert(whole.skip(1) =~= s@.subrange(from + 1, to as int));
        }
        assert(unsigned_part(whole) =~= digits);
    }
    if start == to {
        return None;
    }
    let mut value: u64 = 0;
    assert(digits.take(0) =~= Seq::empty());
    for i in start..to
        invariant
            start <= to <= s@.len(),
            whole == s@.subrange(from as int, to as int),
            digits == s@.subrange(start as int, to as int),
            unsigned_part(whole) == digits,
            value == digits_value(digits.take(i - start)),
            value <= u32::MAX,
            forall|j: int| 0 <= j < i - start ==> is_digit(#[trigger] digits[j]),
    {
        let c: u32 = code_point(s[i]);
        assert(digits[i - start] == s@[i as int]);
        if c < 48 || c > 57 {
            return None;
        }
        proof {
            assert(digits.take(i - start + 1).drop_last() =~= digits.take(i - start));
        }
        value = 10 * value + (c - 48) as u64;
        if value > u32::MAX as u64 {
            proof {
                if all_digits(digits) {
                    lemma_value_grows(digits, i - start + 1);
                }
            }
            return None;
        }
    }
    assert(digits.take(to - start) =~= digits);
    Some(value as u32)
}

/// A version as compiled text declares it.
pub open spec fn version_text(version: (u32, u32)) -> Seq<char> {
    ".version "@ + decimal(version.0 as nat) + "."@ + decimal(version.1 as nat)
}

/// A version as compiled text declares it.
fn to_version_text(major: u32, minor: u32) -> (text: String)
    ensures
        text@ == version_text((major, minor)),
{
    ".version ".to_owned().concat(&to_decimal(major as u64)).concat(".").concat(
        &to_decimal(minor as u64),
    )
}

/// The version that compiled text declares: what stands between the first
/// mark and the next dot, and the digits behind that dot.
pub open spec fn declared_version(src: Seq<char>) -> Option<(u32, u32)> {
    match found_from(src, ".version "@, 0) {
        None => None,
        Some(start) => {
            let after = src.skip(start + 9);
            match found_from(after, "."@, 0) {
                None => None,
                Some(dot) => {
                    let rest = after.skip(dot + 1);
                    match (parsed(after.take(dot)), parsed(rest.take(leading_digits(rest)))) {
                        (Some(major), Some(minor)) => Some((major, minor)),
                        _ => None,
                    }
                },
            }
        },
    }
}

/// Whether version `a` is newer than version `b`.
pub open spec fn newer(a: (u32, u32), b: (u32, u32)) -> bool {
    a.0 > b.0 || (a.0 == b.0 && a.1 > b.1)
}

/// Compiled text that a driver understands: a declared version that is too
/// new is put down to the newest it does.
pub open spec fn downgraded(src: Seq<char>, driver: u32) -> Option<Seq<char>> {
    match newest_version(driver) {
        None => None,
        Some(newest) => match declared_version(src) {
            None => None,
            Some(version) => if newer(version, newest) {
                Some(replaced_once(src, version_text(version), version_text(newest)))
            } else {
                None
            },
        },
    }
}

/// A version never gets newer.
pub proof fn law_versions_only_go_down(driver: u32, version: (u32, u32), newest: (u32, u32))
    requires
        newest_version(driver) == Some(newest),
        newer(version, newest),
    ensures
        !newer(newest, version),
        newest != version,
{
}

/// A newer driver understands no fewer versions.
pub proof fn law_newer_drivers_understand_more(a: u32, b: u32, old_limit: (u32, u32))
    requires
        a <= b,
        newest_version(a) == Some(old_limit),
    ensures
        newest_version(b) matches Some(limit) && !newer(old_limit, limit),
{
}

fn tail_from(s: &Vec<char>, from: usize) -> (out: Vec<char>)
    requires
        from <= s@.len(),
    ensures
        out@ == s@.skip(from as int),
{
    let mut out: Vec<char> = Vec::new();
    for i in from..s.len()
        invariant
            from <= s@.len(),
            out@ == s@.subrange(from as int, i as int),
    {
        out.push(s[i]);
        assert(s@.subrange(from as int, i + 1) =~= s@.subrange(from as int, i as int).push(
            s@[i as int],
        ));
    }
    assert(s@.skip(from as int) =~= s@.subrange(from as int, s@.len() as int));
    out
}

fn count_digits(s: &Vec<char>) -> (n: usize)
    ensures
        n == leading_digits(s@),
        n <= s@.len(),
{
    let mut n: usize = 0;
    assert(s@.skip(0) =~= s@);
    while n < s.len()
        invariant
            n <= s@.len(),
            n + leading_digits(s@.skip(n as int)) == leading_digits(s@),
        decreases s@.len() - n,
    {
        let c: u32 = code_point(s[n]);
        assert(s@.skip(n as int)[0] == s@[n as int]);
        if c < 48 || c > 57 {
            return n;
        }
        assert(s@.skip(n as int).skip(1) =~= s@.skip(n + 1));
        n = n + 1;
    }
    n
}

/// The version that compiled text declares.
pub fn read_version(src: &Vec<char>) -> (version: Option<(u32, u32)>)
    ensures
        version == declared_version(src@),
{
    let mark = chars_of(".version ");
    let point = chars_of(".");
    proof {
        reveal_strlit(".version ");
        reveal_strlit(".");
    }
    match find_first(src, &mark) {
        None => None,
        Some(start) => {
            let total: usize = src.len();
            let after = tail_from(src, start + 9);
            match find_first(&after, &point) {
                None => None,
                Some(dot) => {
                    let left: usize = after.len();
                    let rest = tail_from(&after, dot + 1);
                    let digits: usize = count_digits(&rest);
                    proof {
                        assert(after@.take(dot as int) =~= after@.subrange(0, dot as int));
                        assert(rest@.take(digits as int) =~= rest@.subrange(0, digits as int));
                    }
                    match (parse(&after, 0, dot), parse(&rest, 0, digits)) {
                        (Some(major), Some(minor)) => Some((major, minor)),
                        _ => None,
                    }
                },
            }
        },
    }
}

/// Compiled text with its version put down to what a driver understands, or
/// nothing where the text can stay.
pub fn downgrade_ptx_version_if_needed(src: &str, driver: u32) -> (patched: Option<String>)
    ensures
        match patched {
            Some(text) => downgraded(src@, driver) == Some(text@),
            None => downgraded(src@, driver) is None,
        },
{
    let newest: (u32, u32) = if driver >= 13010 {
        (9, 1)
    } else if driver >= 13000 {
        (9, 0)
    } else if driver >= 12080 {
        (8, 8)
    } else if driver >= 12060 {
        (8, 6)
    } else {
        return None;
    };
    let chars = chars_of(src);
    match read_version(&chars) {
        None => None,
        Some((major, minor)) => {
            if major > newest.0 || (major == newest.0 && minor > newest.1) {
                let old_text = to_version_text(major, minor);
                let new_text = to_version_text(newest.0, newest.1);
                let out = replace_first(
                    &chars,
                    &chars_of(old_text.as_str()),
                    &chars_of(new_text.as_str()),
                );
                Some(string_of(out.as_slice()))
            } else {
                None
            }
        },
    }
}

/// The architecture that kernels are compiled for.
pub open spec fn architecture(major: int, minor: int) -> Seq<char> {
    "compute_"@ + decimal(major as nat) + decimal(minor as nat)
}

/// The architecture that kernels are compiled for; 8.6 where the device does
/// not tell.
pub fn target_architecture(capability: Option<(u32, u32)>) -> (arch: String)
    ensures
        arch@ == (match capability {
            Some((major, minor)) => architecture(major as int, minor as int),
            None => architecture(8, 6),
        }),
{
    let (major, minor): (u32, u32) = match capability {
        Some(pair) => pair,
        None => (8, 6),
    };
    "compute_".to_owned().concat(&to_decimal(major as u64)).concat(&to_decimal(minor as u64))
}

/// Where headers are looked for first, in order.
pub open spec fn header_places(cuda_path: Option<Seq<char>>) -> Seq<Seq<char>> {
    let usual = seq!["/usr/local/cuda/include"@, "/usr/local/cuda/targets/x86_64-linux/include"@];
    match cuda_path {
        Some(path) => seq![path + "/include"@, path + "/targets/x86_64-linux/include"@] + usual,
        None => usual,
    }
}

/// Texts over plain sequences.
pub open spec fn views(list: Seq<String>) -> Seq<Seq<char>> {
    Seq::new(list.len(), |i: int| list[i]@)
}

/// Where headers are looked for first, in order.
pub fn first_header_places(cuda_path: Option<&str>) -> (places: Vec<String>)
    ensures
        views(places@) == header_places(
            match cuda_path {
                Some(path) => Some(path@),
                None => None,
            },
        ),
{
    let mut places: Vec<String> = Vec::new();
    match cuda_path {
        Some(path) => {
            places.push(path.to_owned().concat("/include"));
            places.push(path.to_owned().concat("/targets/x86_64-linux/include"));
        },
        None => {},
    }
    places.push("/usr/local/cuda/include".to_owned());
    places.push("/usr/local/cuda/targets/x86_64-linux/include".to_owned());
    proof {
        let wanted = header_places(
            match cuda_path {
                Some(path) => Some(path@),
                None => None,
            },
        );
        assert(views(places@) =~= wanted);
    }
    places
}

/// Whether a directory name is that of a versioned installation.
pub open spec fn is_versioned(name: Seq<char>) -> bool {
    name.len() >= 5 && name.take(5) == "cuda-"@
}

/// Where headers are looked for among directories under `/usr/local`.
pub open spec fn versioned_places(names: Seq<Seq<char>>) -> Seq<Seq<char>>
    decreases names.len(),
{
    if names.len() == 0 {
        Seq::empty()
    } else if is_versioned(names.last()) {
        versioned_places(names.drop_last()).push(
            "/usr/local/"@ + names.last() + "/targets/x86_64-linux/include"@,
        ).push("/usr/local/"@ + names.last() + "/include"@)
    } else {
        versioned_places(names.drop_last())
    }
}

fn has_versioned_name(name: &str) -> (yes: bool)
    ensures
        yes == is_versioned(name@),
{
    let chars = chars_of(name);
    let mark = chars_of("cuda-");
    proof {
        reveal_strlit("cuda-");
    }
    if chars.len() < 5 {
        return false;
    }
    for i in 0..5usize
        invariant
            chars@ == name@,
            chars@.len() >= 5,
            mark@ == "cuda-"@,
            mark@.len() == 5,
            forall|j: int| 0 <= j < i ==> chars@[j] == mark@[j],
    {
        if chars[i] != mark[i] {
            assert(name@.take(5)[i as int] != "cuda-"@[i as int]);
            return false;
        }
    }
    assert(name@.take(5) =~= "cuda-"@);
    true
}

/// Where headers are looked for among directories under `/usr/local`.
pub fn versioned_header_places(names: &[String]) -> (places: Vec<String>)
    ensures
        views(places@) == versioned_places(views(names@)),
{
    let mut places: Vec<String> = Vec::new();
    assert(views(names@).take(0) =~= Seq::empty());
    assert(views(places@) =~= Seq::empty());
    for i in 0..names.len()
        invariant
            views(places@) == versioned_places(views(names@).take(i as int)),
    {
        let ghost all = views(names@);
        assert(all.take(i + 1).drop_last() =~= all.take(i as int));
        if has_versioned_name(names[i].as_str()) {
            let ghost before = places@;
            let root = "/usr/local/".to_owned().concat(names[i].as_str());
            places.push(root.clone().concat("/targets/x86_64-linux/include"));
            places.push(root.clone().concat("/include"));
            proof {
                let a = places@[places@.len() - 2]@;
                let b = places@[places@.len() - 1]@;
                assert(views(places@) =~= views(before).push(a).push(b));
            }
        }
    }
    assert(views(names@).take(names@.len() as int) =~= views(names@));
    places
}

/// What has been read of a version: its numbers so far, and whether it goes
/// on.
pub struct Reading {
    pub numbers: Seq<u64>,
    pub open: bool,
}

/// A number with one more digit, or the largest that there is.
pub open spec fn with_digit(n: u64, digit: int) -> u64 {
    if n * 10 + digit <= u64::MAX {
        (n * 10 + digit) as u64
    } else {
        u64::MAX
    }
}

/// What the first `n` characters say of a version: numbers with dots between
/// them, up to the first other character.
pub open spec fn reading(s: Seq<char>, n: int) -> Reading
    decreases n,
{
    if n <= 0 {
        Reading { numbers: seq![0u64], open: true }
    } else {
        let before = reading(s, n - 1);
        let c = s[n - 1];
        if !before.open {
            before
        } else if '0' <= c <= '9' {
            Reading {
                numbers: before.numbers.drop_last().push(
                    with_digit(before.numbers.last(), c as int - '0' as int),
                ),
                open: true,
            }
        } else if c == '.' {
            Reading { numbers: before.numbers.push(0), open: true }
        } else {
            Reading { numbers: before.numbers, open: false }
        }
    }
}

/// The version of a place: the numbers behind `/usr/local/cuda-`.
pub open spec fn version_of(place: Seq<char>) -> Seq<u64> {
    let rest = if place.len() >= 16 {
        place.skip(16)
    } else {
        Seq::empty()
    };
    reading(rest, rest.len() as int).numbers
}

/// Whether version `a` is older than version `b`: the first number that
/// differs is smaller, or there are fewer numbers.
pub open spec fn older(a: Seq<u64>, b: Seq<u64>) -> bool
    decreases a.len(),
{
    if b.len() == 0 {
        false
    } else if a.len() == 0 {
        true
    } else if a[0] != b[0] {
        a[0] < b[0]
    } else {
        older(a.drop_first(), b.drop_first())
    }
}

/// Whether place `b` is preferred to place `a`: it has the higher version, or
/// the same version and the later name.
pub open spec fn outdone(a: Seq<char>, b: Seq<char>) -> bool {
    older(version_of(a), version_of(b)) || (version_of(a) == version_of(b) && precedes(a, b))
}

/// `best` is among the places, and none is preferred to it.
pub open spec fn is_best(places: Seq<Seq<char>>, best: Seq<char>) -> bool {
    &&& places.contains(best)
    &&& forall|i: int| 0 <= i < places.len() ==> !outdone(best, #[trigger] places[i])
}

/// No place that is left out has a higher version than the chosen one.
pub proof fn law_the_highest_version_is_chosen(places: Seq<Seq<char>>, best: Seq<char>, i: int)
    requires
        is_best(places, best),
        0 <= i < places.len(),
    ensures
        !older(version_of(best), version_of(places[i])),
{
    assert(!outdone(best, places[i]));
}

proof fn lemma_older_irreflexive(a: Seq<u64>)
    ensures
        !older(a, a),
    decreases a.len(),
{
    if a.len() > 0 {
        lemma_older_irreflexive(a.drop_first());
    }
}

proof fn lemma_older_transitive(a: Seq<u64>, b: Seq<u64>, c: Seq<u64>)
    requires
        older(a, b),
        older(b, c),
    ensures
        older(a, c),
    decreases a.len(),
{
    if a.len() > 0 && a[0] == b[0] && b[0] == c[0] {
        lemma_older_transitive(a.drop_first(), b.drop_first(), c.drop_first());
    }
}

proof fn lemma_outdone_transitive(a: Seq<char>, b: Seq<char>, c: Seq<char>)
    requires
        outdone(a, b),
        outdone(b, c),
    ensures
        outdone(a, c),
{
    let (x, y, z) = (version_of(a), version_of(b), version_of(c));
    if older(x, y) && older(y, z) {
        lemma_older_transitive(x, y, z);
    } else if x == y && y == z {
        lemma_precedes_transitive(a, b, c);
    }
}

/// The version of a place.
fn read_version_of(place: &str) -> (version: Vec<u64>)
    ensures
        version@ == version_of(place@),
{
    let chars = chars_of(place);
    let mut numbers: Vec<u64> = Vec::new();
    let mut current: u64 = 0;
    let ghost rest = if place@.len() >= 16 {
        place@.skip(16)
    } else {
        Seq::<char>::empty()
    };
    assert(numbers@.push(current) =~= seq![0u64]);
    let mut i: usize = 16;
    while i < chars.len()
        invariant
            chars@ == place@,
            i >= 16,
            i <= chars@.len() || (i == 16 && rest.len() == 0),
            rest == (if place@.len() >= 16 {
                place@.skip(16)
            } else {
                Seq::<char>::empty()
            }),
            reading(rest, i - 16) == (Reading { numbers: numbers@.push(current), open: true }),
        decreases chars@.len() - i,
    {
        let c: char = chars[i];
        let n: u32 = code_point(c);
        let ghost so_far = numbers@.push(current);
        assert(rest[i - 16] == c);
        assert(so_far.drop_last() =~= numbers@);
        if 48 <= n && n <= 57 {
            let digit: u64 = (n - 48) as u64;
            current = if current < 1844674407370955161 || (current == 1844674407370955161 && digit
                <= 5) {
                current * 10 + digit
            } else {
                u64::MAX
            };
        } else if n == 46 {
            numbers.push(current);
            current = 0;
        } else {
            proof {
                lemma_reading_stops(rest, i - 16 + 1, rest.len() as int);
            }
            numbers.push(current);
            return numbers;
        }
        i = i + 1;
    }
    numbers.push(current);
    numbers
}

proof fn lemma_reading_stops(s: Seq<char>, m: int, n: int)
    requires
        0 <= m <= n,
        !reading(s, m).open,
    ensures
        reading(s, n) == reading(s, m),
    decreases n,
{
    if m < n {
        lemma_reading_stops(s, m, n - 1);
    }
}

/// Whether version `a` is older than version `b`.
fn is_older(a: &Vec<u64>, b: &Vec<u64>) -> (yes: bool)
    ensures
        yes == older(a@, b@),
{
    let mut i: usize = 0;
    assert(a@.skip(0) =~= a@);
    assert(b@.skip(0) =~= b@);
    while i < a.len() && i < b.len()
        invariant
            i <= a@.len(),
            i <= b@.len(),
            older(a@, b@) == older(a@.skip(i as int), b@.skip(i as int)),
        decreases a@.len() - i,
    {
        if a[i] != b[i] {
            return a[i] < b[i];
        }
        assert(a@.skip(i as int).drop_first() =~= a@.skip(i + 1));
        assert(b@.skip(i as int).drop_first() =~= b@.skip(i + 1));
        i = i + 1;
    }
    i < b.len()
}

/// Whether place `b` is preferred to place `a`.
fn is_outdone(a: &str, b: &str) -> (yes: bool)
    ensures
        yes == outdone(a@, b@),
{
    let (x, y): (Vec<u64>, Vec<u64>) = (read_version_of(a), read_version_of(b));
    if is_older(&x, &y) {
        return true;
    }
    if is_older(&y, &x) {
        proof {
            lemma_older_irreflexive(x@);
        }
        return false;
    }
    proof {
        lemma_neither_older(x@, y@);
    }
    comes_before(a, b)
}

proof fn lemma_neither_older(a: Seq<u64>, b: Seq<u64>)
    requires
        !older(a, b),
        !older(b, a),
    ensures
        a == b,
    decreases a.len(),
{
    if a.len() > 0 && b.len() > 0 {
        lemma_neither_older(a.drop_first(), b.drop_first());
        assert(a =~= seq![a[0]] + a.drop_first());
        assert(b =~= seq![b[0]] + b.drop_first());
    } else {
        assert(a =~= b);
    }
}

/// The place with the highest version; of two with the same one, the last in
/// the order of their names.
pub fn last_place(places: &[String]) -> (best: Option<String>)
    ensures
        match best {
            Some(place) => is_best(views(places@), place@),
            None => places@.len() == 0,
        },
{
    if places.len() == 0 {
        return None;
    }
    let mut best: usize = 0;
    proof {
        lemma_not_outdone(places@[0]@);
    }
    for i in 1..places.len()
        invariant
            best < i <= places@.len(),
            forall|j: int| 0 <= j < i ==> !outdone(places@[best as int]@, #[trigger] places@[j]@),
    {
        if is_outdone(places[best].as_str(), places[i].as_str()) {
            proof {
                let was = places@[best as int]@;
                let now = places@[i as int]@;
                assert forall|j: int| 0 <= j < i + 1 implies !outdone(now, #[trigger] places@[j]@) by {
                    lemma_not_outdone(now);
                    if j < i && outdone(now, places@[j]@) {
                        lemma_outdone_transitive(was, now, places@[j]@);
                    }
                }
            }
            best = i;
        }
    }
    proof {
        let all = views(places@);
        assert(all[best as int] == places@[best as int]@);
        assert forall|i: int| 0 <= i < all.len() implies !outdone(
            places@[best as int]@,
            #[trigger] all[i],
        ) by {
            assert(all[i] == places@[i]@);
        }
    }
    Some(places[best].clone())
}


proof fn lemma_not_outdone(place: Seq<char>)
    ensures
        !outdone(place, place),
{
    lemma_older_irreflexive(version_of(place));
    lemma_precedes_total(place, place);
}

} // verus!
