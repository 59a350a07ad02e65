//! Life-path numerology: the digits of a date are summed and the total is
//! reduced, digit sum by digit sum, to one digit or to a master number.
use vstd::prelude::*;
use vstd::string::StrSliceExecFns;
use crate::text::{is_digit, digit_value};

verus! {

/// The sum of all ASCII digits in `s`, every other character ignored.
pub open spec fn digit_total(s: Seq<char>) -> nat
    decreases s.len(),
{
    if s.len() == 0 {
        0
    } else {
        digit_total(s.drop_last()) + if is_digit(s.last()) {
            digit_value(s.last())
        } else {
            0nat
        }
    }
}

pub open spec fn has_digit(s: Seq<char>) -> bool {
    exists|i: int| 0 <= i < s.len() && is_digit(#[trigger] s[i])
}

/// The sum of the decimal digits of `n`.
pub open spec fn digit_sum(n: nat) -> nat
    decreases n,
{
    if n < 10 {
        n
    } else {
        n % 10 + digit_sum(n / 10)
    }
}

/// 11, 22 and 33 end a reduction although they have two digits.
pub open spec fn is_master(n: nat) -> bool {
    n == 11 || n == 22 || n == 33
}

pub open spec fn is_terminal(n: nat) -> bool {
    n <= 9 || is_master(n)
}

/// Repeated digit sums of `n`, stopping at one digit or at a master number.
pub open spec fn reduce_total(n: nat) -> nat
    decreases n,
{
    if is_terminal(n) {
        n
    } else if digit_sum(n) < n {
        reduce_total(digit_sum(n))
    } else {
        n
    }
}

/// The life-path number of a date-like text, if it holds any digit.
pub open spec fn life_path(s: Seq<char>) -> Option<nat> {
    if has_digit(s) {
        Some(reduce_total(digit_total(s)))
    } else {
        None
    }
}

proof fn lemma_digit_sum_le(n: nat)
    ensures
        digit_sum(n) <= n,
        n >= 10 ==> digit_sum(n) < n,
    decreases n,
{
    if n >= 10 {
        lemma_digit_sum_le(n / 10);
        assert(n == 10 * (n / 10) + n % 10);
    }
}

/// A reduction always ends at a digit or a master number.
pub proof fn lemma_reduce_total_terminal(n: nat)
    ensures
        is_terminal(reduce_total(n)),
    decreases n,
{
    lemma_digit_sum_le(n);
    if !is_terminal(n) {
        lemma_reduce_total_terminal(digit_sum(n));
    }
}

fn digit_sum_exec(n: u128) -> (r: u128)
    ensures
        r as nat == digit_sum(n as nat),
{
    let mut m: u128 = n;
    let mut acc: u128 = 0;
    proof {
        lemma_digit_sum_le(n as nat);
    }
    while m >= 10
        invariant
            acc as nat + digit_sum(m as nat) == digit_sum(n as nat),
            digit_sum(n as nat) <= n,
        decreases m,
    {
        proof {
            lemma_digit_sum_le((m / 10) as nat);
        }
        acc = acc + m % 10;
        m = m / 10;
    }
    acc + m
}

/// The life-path number of `date_str`: `None` when it holds no ASCII digit.
pub fn calculate_life_path(date_str: &str) -> (r: Option<u32>)
    ensures
        r is Some <==> has_digit(date_str@),
        r is Some ==> r->0 as nat == reduce_total(digit_total(date_str@)),
        r is Some ==> is_terminal(r->0 as nat),
{
    let n = date_str.unicode_len();
    let mut i: usize = 0;
    let mut sum: u128 = 0;
    let mut found = false;
    while i < n
        invariant
            n == date_str@.len(),
            i <= n,
            sum as nat == digit_total(date_str@.subrange(0, i as int)),
            sum <= 9 * i,
            found == has_digit(date_str@.subrange(0, i as int)),
        decreases n - i,
    {
        let c = date_str.get_char(i);
        proof {
            let pre = date_str@.subrange(0, i as int);
            let post = date_str@.subrange(0, i + 1);
            assert(post =~= pre.push(c));
            assert(post.drop_last() =~= pre);
        }
        if '0' <= c && c <= '9' {
            sum = sum + (c as u32 - '0' as u32) as u128;
            found = true;
        }
        proof {
            let pre = date_str@.subrange(0, i as int);
            let post = date_str@.subrange(0, i + 1);
            assert(post[i as int] == c);
            if has_digit(pre) {
                let j = choose|j: int| 0 <= j < pre.len() && is_digit(#[trigger] pre[j]);
                assert(post[j] == pre[j]);
            }
            if has_digit(post) {
                let j = choose|j: int| 0 <= j < post.len() && is_digit(#[trigger] post[j]);
                if j < i {
                    assert(pre[j] == post[j]);
                }
            }
        }
        i = i + 1;
    }
    assert(date_str@.subrange(0, n as int) =~= date_str@);
    if !found {
        return None;
    }
    let ghost total = sum as nat;
    while sum > 9 && sum != 11 && sum != 22 && sum != 33
        invariant
            reduce_total(sum as nat) == reduce_total(total),
        decreases sum,
    {
        proof {
            lemma_digit_sum_le(sum as nat);
        }
        sum = digit_sum_exec(sum);
    }
    proof {
        lemma_reduce_total_terminal(total);
    }
    Some(sum as u32)
}

/// The text that goes with a life-path number.
pub open spec fn meaning_of(number: u32) -> Seq<char> {
    if number == 1 {
        "1: 独立と開始。リーダーシップを発揮する開拓者の数字です。"@
    } else if number == 2 {
        "2: 協調と調和。感受性が豊かでサポートを得意とする数字です。"@
    } else if number == 3 {
        "3: 創造と喜び。自己表現を楽しみ、周囲を明るくする数字です。"@
    } else if number == 11 {
        "11: 直感と啓示。高い感受性と霊的な洞察力を持つ数字です。"@
    } else if number == 22 {
        "22: 構築と具現。大きな理想を現実の形にするマスタービルダーです。"@
    } else if number == 33 {
        "33: 博愛と奉仕。宇宙的な愛で人類に貢献する菩薩のような数字です。"@
    } else {
        "分析完了。詳細は各記事を参照してください。"@
    }
}

/// The meaning text of a life-path number; numbers without a text of their
/// own share a general one.
pub fn get_meaning(number: u32) -> (r: &'static str)
    ensures
        r@ == meaning_of(number),
{
    if number == 1 {
        "1: 独立と開始。リーダーシップを発揮する開拓者の数字です。"
    } else if number == 2 {
        "2: 協調と調和。感受性が豊かでサポートを得意とする数字です。"
    } else if number == 3 {
        "3: 創造と喜び。自己表現を楽しみ、周囲を明るくする数字です。"
    } else if number == 11 {
        "11: 直感と啓示。高い感受性と霊的な洞察力を持つ数字です。"
    } else if number == 22 {
        "22: 構築と具現。大きな理想を現実の形にするマスタービルダーです。"
    } else if number == 33 {
        "33: 博愛と奉仕。宇宙的な愛で人類に貢献する菩薩のような数字です。"
    } else {
        "分析完了。詳細は各記事を参照してください。"
    }
}

} // verus!
