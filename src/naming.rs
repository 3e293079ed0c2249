use vstd::prelude::*;

verus! {

/// The character of a decimal digit.
pub open spec fn digit_char(d: nat) -> char {
    if d == 0 {
        '0'
    } else if d == 1 {
        '1'
    } else if d == 2 {
        '2'
    } else if d == 3 {
        '3'
    } else if d == 4 {
        '4'
    } else if d == 5 {
        '5'
    } else if d == 6 {
        '6'
    } else if d == 7 {
        '7'
    } else if d == 8 {
        '8'
    } else {
        '9'
    }
}

/// The decimal rendering of `n`, without sign or leading zeros.
pub open spec fn decimal(n: nat) -> Seq<char>
    decreases n,
{
    if n < 10 {
        seq![digit_char(n)]
    } else {
        decimal(n / 10).push(digit_char(n % 10))
    }
}

/// The name of the `i`-th thread of a pool called `name`.
pub open spec fn member_name(name: Seq<char>, i: nat) -> Seq<char> {
    name + seq!['_'] + decimal(i)
}

/// The threads that one entry `(name, count)` of a configuration asks for:
/// the bare name for a single thread, otherwise `name_0` .. `name_{count-1}`.
pub open spec fn pool_of(name: Seq<char>, count: nat) -> Seq<Seq<char>> {
    if count == 1 {
        seq![name]
    } else {
        Seq::new(count, |i: int| member_name(name, i as nat))
    }
}

/// The threads of a whole configuration, entry after entry.
pub open spec fn pool_names(specs: Seq<(Seq<char>, usize)>) -> Seq<Seq<char>>
    decreases specs.len(),
{
    if specs.len() == 0 {
        Seq::empty()
    } else {
        pool_names(specs.drop_last()) + pool_of(specs.last().0, specs.last().1 as nat)
    }
}

/// A configuration as given by callers, seen as names and counts.
pub open spec fn config_view(specs: Seq<(&str, usize)>) -> Seq<(Seq<char>, usize)> {
    specs.map_values(|c: (&str, usize)| (c.0@, c.1))
}

/// The views of a list of strings.
pub open spec fn strings_view(v: Seq<String>) -> Seq<Seq<char>> {
    v.map_values(|s: String| s@)
}

fn digit_str(d: usize) -> (r: &'static str)
    requires
        d < 10,
    ensures
        r@ == seq![digit_char(d as nat)],
{
    proof {
        reveal_strlit("0");
        reveal_strlit("1");
        reveal_strlit("2");
        reveal_strlit("3");
        reveal_strlit("4");
        reveal_strlit("5");
        reveal_strlit("6");
        reveal_strlit("7");
        reveal_strlit("8");
        reveal_strlit("9");
    }
    let r = if d == 0 {
        "0"
    } else if d == 1 {
        "1"
    } else if d == 2 {
        "2"
    } else if d == 3 {
        "3"
    } else if d == 4 {
        "4"
    } else if d == 5 {
        "5"
    } else if d == 6 {
        "6"
    } else if d == 7 {
        "7"
    } else if d == 8 {
        "8"
    } else {
        "9"
    };
    assert(r@ =~= seq![digit_char(d as nat)]);
    r
}

/// The decimal rendering of `n`.
pub fn decimal_string(n: usize) -> (r: String)
    ensures
        r@ == decimal(n as nat),
    decreases n,
{
    if n < 10 {
        String::from_str(digit_str(n))
    } else {
        let mut s = decimal_string(n / 10);
        s.append(digit_str(n % 10));
        proof {
            lemma_decimal_step(s@, decimal((n / 10) as nat), n);
        }
        s
    }
}

proof fn lemma_decimal_step(s: Seq<char>, prefix: Seq<char>, n: usize)
    requires
        n >= 10,
        s == prefix + seq![digit_char((n % 10) as nat)],
        prefix == decimal((n / 10) as nat),
    ensures
        s == decimal(n as nat),
{
    assert(prefix + seq![digit_char((n % 10) as nat)] =~= prefix.push(digit_char((n % 10) as nat)));
}

/// The names of the threads that the entry `(name, count)` asks for.
pub fn pool_thread_names(name: &str, count: usize) -> (r: Vec<String>)
    ensures
        strings_view(r@) == pool_of(name@, count as nat),
{
    let mut r: Vec<String> = Vec::new();
    if count == 1 {
        r.push(name.to_owned());
        assert(strings_view(r@) =~= pool_of(name@, count as nat));
        return r;
    }
    let mut i: usize = 0;
    while i < count
        invariant
            i <= count,
            count != 1,
            r@.len() == i,
            forall|j: int| 0 <= j < i ==> (#[trigger] r@[j])@ == member_name(name@, j as nat),
        decreases count - i,
    {
        let mut s = name.to_owned();
        s.append("_");
        let d = decimal_string(i);
        s.append(d.as_str());
        proof {
            reveal_strlit("_");
        }
        assert(s@ =~= member_name(name@, i as nat));
        r.push(s);
        i = i + 1;
    }
    assert(strings_view(r@) =~= pool_of(name@, count as nat));
    r
}

/// The names of all the threads that a configuration asks for, in order.
pub fn thread_names(thread_configs: &[(&str, usize)]) -> (r: Vec<String>)
    ensures
        strings_view(r@) == pool_names(config_view(thread_configs@)),
{
    let mut r: Vec<String> = Vec::new();
    let mut k: usize = 0;
    while k < thread_configs.len()
        invariant
            k <= thread_configs@.len(),
            strings_view(r@) == pool_names(config_view(thread_configs@.subrange(0, k as int))),
        decreases thread_configs@.len() - k,
    {
        let (name, count) = thread_configs[k];
        let mut more = pool_thread_names(name, count);
        let ghost before = r@;
        r.append(&mut more);
        proof {
            let cs = thread_configs@.subrange(0, k as int + 1);
            assert(cs.drop_last() =~= thread_configs@.subrange(0, k as int));
            assert(config_view(cs).drop_last() =~= config_view(cs.drop_last()));
            assert(strings_view(r@) =~= strings_view(before) + pool_of(name@, count as nat));
        }
        k = k + 1;
    }
    assert(thread_configs@.subrange(0, k as int) =~= thread_configs@);
    r
}

proof fn lemma_decimal_nonempty(n: nat)
    ensures
        decimal(n).len() >= 1,
        n < 10 <==> decimal(n).len() == 1,
    decreases n,
{
    if n >= 10 {
        lemma_decimal_nonempty(n / 10);
    }
}

/// Distinct numbers have distinct decimal renderings.
pub proof fn lemma_decimal_injective(a: nat, b: nat)
    requires
        decimal(a) == decimal(b),
    ensures
        a == b,
    decreases a + b,
{
    lemma_decimal_nonempty(a);
    lemma_decimal_nonempty(b);
    if a >= 10 && b >= 10 {
        let da = decimal(a);
        assert(da.last() == digit_char(a % 10));
        assert(decimal(b).last() == digit_char(b % 10));
        assert(da.drop_last() =~= decimal(a / 10));
        assert(decimal(b).drop_last() =~= decimal(b / 10));
        lemma_decimal_injective(a / 10, b / 10);
    } else if a < 10 && b < 10 {
        assert(decimal(a)[0] == digit_char(a));
        assert(decimal(b)[0] == digit_char(b));
    }
}

/// Shape of a pool: one thread under the bare name when `count` is 1;
/// otherwise exactly `count` threads named `name_0` .. `name_{count-1}`,
/// pairwise distinct.
pub proof fn lemma_pool_shape(name: Seq<char>, count: nat)
    ensures
        count == 1 ==> pool_of(name, count) == seq![name],
        count != 1 ==> pool_of(name, count).len() == count,
        count != 1 ==> forall|i: int|
            0 <= i < count ==> #[trigger] pool_of(name, count)[i] == name + seq!['_'] + decimal(
                i as nat,
            ),
        forall|i: int, j: int|
            0 <= i < j < pool_of(name, count).len() ==> pool_of(name, count)[i] != pool_of(
                name,
                count,
            )[j],
{
    if count != 1 {
        assert forall|i: int, j: int|
            0 <= i < j < pool_of(name, count).len() implies pool_of(name, count)[i] != pool_of(
                name,
                count,
            )[j] by {
            let p = name + seq!['_'];
            let si = member_name(name, i as nat);
            let sj = member_name(name, j as nat);
            if si == sj {
                assert(decimal(i as nat) =~= si.subrange(p.len() as int, si.len() as int));
                assert(decimal(j as nat) =~= sj.subrange(p.len() as int, sj.len() as int));
                lemma_decimal_injective(i as nat, j as nat);
            }
        }
    }
}

/// A configuration of one entry `(name, count)` asks for exactly the pool of
/// that entry.
pub proof fn lemma_single_entry(name: Seq<char>, count: usize)
    ensures
        pool_names(seq![(name, count)]) == pool_of(name, count as nat),
{
    let specs = seq![(name, count)];
    assert(specs.drop_last() =~= Seq::<(Seq<char>, usize)>::empty());
    assert(pool_names(specs.drop_last()) =~= Seq::<Seq<char>>::empty());
    assert(Seq::<Seq<char>>::empty() + pool_of(name, count as nat) =~= pool_of(name, count as nat));
}

} // verus!
