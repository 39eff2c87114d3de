use vstd::prelude::*;
use vstd::string::*;

verus! {

/// A line as it is recorded: the characters before the terminator, with a
/// carriage return dropped when it stands directly before the line feed.
pub open spec fn chomp_cr(l: Seq<char>) -> Seq<char> {
    if l.len() > 0 && l.last() == '\r' {
        l.drop_last()
    } else {
        l
    }
}

/// Splits `s` into lines, carrying the current unfinished line in `cur`:
/// a line feed ends a line (a carriage return directly before it is
/// dropped), and a final unfinished line is kept as it stands, so a text
/// that ends on a line feed yields no extra empty line.
pub open spec fn lines_acc(s: Seq<char>, cur: Seq<char>) -> Seq<Seq<char>>
    decreases s.len(),
{
    if s.len() == 0 {
        if cur.len() == 0 {
            seq![]
        } else {
            seq![cur]
        }
    } else if s.first() == '\n' {
        seq![chomp_cr(cur)] + lines_acc(s.drop_first(), Seq::empty())
    } else {
        lines_acc(s.drop_first(), cur.push(s.first()))
    }
}

/// The ordered lines of `s`, split as `str::lines` splits them.
pub open spec fn spec_lines(s: Seq<char>) -> Seq<Seq<char>> {
    lines_acc(s, Seq::empty())
}

/// The views of a sequence of strings, in order.
pub open spec fn seqs_of(v: Seq<String>) -> Seq<Seq<char>> {
    v.map_values(|x: String| x@)
}

/// Splits `text` into its ordered sequence of lines.
pub fn split_lines(text: &str) -> (r: Vec<String>)
    ensures
        seqs_of(r@) == spec_lines(text@),
{
    let n = text.unicode_len();
    let mut result: Vec<String> = Vec::new();
    let mut start: usize = 0;
    let mut i: usize = 0;
    proof {
        assert(text@.skip(0) =~= text@);
        assert(text@.subrange(0, 0) =~= Seq::<char>::empty());
        assert(seqs_of(Seq::<String>::empty()) =~= Seq::<Seq<char>>::empty());
        assert(Seq::<Seq<char>>::empty() + lines_acc(text@, Seq::empty()) =~= lines_acc(
            text@,
            Seq::empty(),
        ));
    }
    while i < n
        invariant
            n == text@.len(),
            start <= i <= n,
            spec_lines(text@) == seqs_of(result@) + lines_acc(
                text@.skip(i as int),
                text@.subrange(start as int, i as int),
            ),
        decreases n - i,
    {
        let ghost s = text@;
        let ghost cur = s.subrange(start as int, i as int);
        proof {
            assert(s.skip(i as int).len() > 0);
            assert(s.skip(i as int).first() == s[i as int]);
            assert(s.skip(i as int).drop_first() =~= s.skip(i as int + 1));
        }
        let c = text.get_char(i);
        if c == '\n' {
            let end = if i > start && text.get_char(i - 1) == '\r' {
                i - 1
            } else {
                i
            };
            let line = text.substring_char(start, end);
            let owned = line.to_owned();
            proof {
                if i > start && s[i as int - 1] == '\r' {
                    assert(cur.len() > 0 && cur.last() == '\r');
                }
                assert(chomp_cr(cur) =~= s.subrange(start as int, end as int));
                assert(seqs_of(result@.push(owned)) =~= seqs_of(result@).push(owned@));
                assert(s.subrange(i as int + 1, i as int + 1) =~= Seq::<char>::empty());
                assert(lines_acc(s.skip(i as int), cur) == seq![chomp_cr(cur)] + lines_acc(
                    s.skip(i as int + 1),
                    Seq::empty(),
                ));
                assert(seqs_of(result@) + lines_acc(s.skip(i as int), cur) =~= seqs_of(
                    result@.push(owned),
                ) + lines_acc(s.skip(i as int + 1), s.subrange(i as int + 1, i as int + 1)));
            }
            result.push(owned);
            start = i + 1;
        } else {
            proof {
                assert(cur.push(s[i as int]) =~= s.subrange(start as int, i as int + 1));
                assert(lines_acc(s.skip(i as int), cur) == lines_acc(
                    s.skip(i as int + 1),
                    s.subrange(start as int, i as int + 1),
                ));
            }
        }
        i += 1;
    }
    let ghost s = text@;
    let ghost cur = s.subrange(start as int, n as int);
    proof {
        assert(s.skip(n as int) =~= Seq::<char>::empty());
    }
    if start < n {
        let line = text.substring_char(start, n);
        let owned = line.to_owned();
        proof {
            assert(cur.len() > 0);
            assert(lines_acc(s.skip(n as int), cur) == seq![cur]);
            assert(seqs_of(result@.push(owned)) =~= seqs_of(result@) + seq![cur]);
        }
        result.push(owned);
    } else {
        proof {
            assert(cur.len() == 0);
            assert(lines_acc(s.skip(n as int), cur) == Seq::<Seq<char>>::empty());
            assert(seqs_of(result@) + lines_acc(s.skip(n as int), cur) =~= seqs_of(result@));
        }
    }
    proof {
        assert(seqs_of(result@) =~= spec_lines(text@));
    }
    result
}

/// `s` repeated `n` times, end to end.
pub open spec fn repeated(s: Seq<char>, n: nat) -> Seq<char>
    decreases n,
{
    if n == 0 {
        Seq::empty()
    } else {
        repeated(s, (n - 1) as nat) + s
    }
}

/// Builds the string that repeats `string` exactly `count` times.
pub fn strmul(string: &str, count: usize) -> (r: String)
    ensures
        r@ == repeated(string@, count as nat),
{
    if count == 0 {
        return String::new();
    }

    let mut result = String::new();

    let mut count_left: usize = count;

    while count_left != 0
        invariant
            count_left <= count,
            result@ == repeated(string@, (count - count_left) as nat),
        decreases count_left,
    {
        result.append(string);
        count_left -= 1;
        proof {
            let k = (count - count_left) as nat;
            assert(repeated(string@, k) == repeated(string@, (k - 1) as nat) + string@);
        }
    }

    result
}

} // verus!
