//! The embedding server's own rules: request inputs, settings read from the
//! environment, the position ids fed to the model, how many workers embed a
//! request, and putting their results back in input order.

use vstd::prelude::*;
use crate::text::{
    decimal, has_prefix, has_suffix, join, lemma_decimal_parses_back, parse_usize, parse_usize_str, str_eq,
};

verus! {

/// The `input` of `POST /v1/embeddings`: one text or a list of texts.
#[derive(Debug, Clone, PartialEq, Eq)]
pub enum EmbeddingInput {
    One(String),
    Many(Vec<String>),
}

impl EmbeddingInput {
    /// The texts to embed, in request order.
    pub fn into_vec(self) -> (r: Vec<String>)
        ensures
            r@ == match self {
                EmbeddingInput::One(s) => seq![s],
                EmbeddingInput::Many(v) => v@,
            },
    {
        match self {
            EmbeddingInput::One(s) => vec![s],
            EmbeddingInput::Many(v) => v,
        }
    }
}

pub open spec fn spec_parallel(raw: Option<Seq<char>>) -> usize {
    match raw {
        Some(s) => match parse_usize(s) {
            Some(n) if n >= 1 => n,
            _ => 4,
        },
        None => 4,
    }
}

/// Number of embedding worker threads from `BGE_PARALLEL`: a positive
/// integer, otherwise 4.
pub fn parallel_from_env(raw: Option<&str>) -> (r: usize)
    ensures
        r == spec_parallel(
            match raw {
                Some(s) => Some(s@),
                None => None::<Seq<char>>,
            },
        ),
        r >= 1,
        match raw {
            Some(s) => match parse_usize(s@) {
                Some(n) => if n >= 1 { r == n } else { r == 4 },
                None => r == 4,
            },
            None => r == 4,
        },
{
    match raw {
        Some(s) => match parse_usize_str(s) {
            Some(n) => if n >= 1 {
                n
            } else {
                4
            },
            None => 4,
        },
        None => 4,
    }
}

pub open spec fn spec_batch_permits(raw: Option<Seq<char>>) -> usize {
    match raw {
        Some(s) => match parse_usize(s) {
            Some(n) if n >= 1 => n,
            _ => 1,
        },
        None => 1,
    }
}

/// How many multi-input requests may embed at once, from `BGE_TOPLU_IZIN`:
/// a positive integer, otherwise 1.
pub fn batch_permits_from_env(raw: Option<&str>) -> (r: usize)
    ensures
        r == spec_batch_permits(
            match raw {
                Some(s) => Some(s@),
                None => None::<Seq<char>>,
            },
        ),
        r >= 1,
        match raw {
            Some(s) => match parse_usize(s@) {
                Some(n) => if n >= 1 { r == n } else { r == 1 },
                None => r == 1,
            },
            None => r == 1,
        },
{
    match raw {
        Some(s) => match parse_usize_str(s) {
            Some(n) => if n >= 1 {
                n
            } else {
                1
            },
            None => 1,
        },
        None => 1,
    }
}

/// Longest input, in characters, of a request that counts as a short query.
pub const SHORT_QUERY_CHARS: usize = 512;

pub open spec fn spec_skips_batch_limit(inputs: Seq<String>) -> bool {
    inputs.len() == 1 && inputs[0]@.len() < SHORT_QUERY_CHARS
}

/// Whether a request goes straight to embedding: only a request of one
/// input shorter than 512 characters does; all others first wait for a
/// batch permit.
pub fn skips_batch_limit(inputs: &Vec<String>) -> (r: bool)
    ensures
        r == spec_skips_batch_limit(inputs@),
{
    inputs.len() == 1 && inputs[0].as_str().unicode_len() < SHORT_QUERY_CHARS
}

pub open spec fn is_headless_flag(s: String) -> bool {
    s@ == "--headless"@
}

/// Whether to run without the window: the `--headless` argument, or
/// `BGE_HEADLESS=1`.
pub fn headless(args: &Vec<String>, env: Option<&str>) -> (r: bool)
    ensures
        r == ((exists|i: int| 0 <= i < args@.len() && is_headless_flag(#[trigger] args@[i])) || match env {
            Some(v) => v@ == "1"@,
            None => false,
        }),
        r == ((exists|i: int| 0 <= i < args@.len() && (#[trigger] args@[i])@ == "--headless"@) || (env
            matches Some(v) && v@ == "1"@)),
{
    let mut i: usize = 0;
    while i < args.len()
        invariant
            i <= args@.len(),
            forall|j: int| 0 <= j < i ==> !is_headless_flag(#[trigger] args@[j]),
        decreases args@.len() - i,
    {
        if str_eq(args[i].as_str(), "--headless") {
            assert(is_headless_flag(args@[i as int]));
            return true;
        }
        i = i + 1;
    }
    match env {
        Some(v) => str_eq(v, "1"),
        None => false,
    }
}

pub open spec fn spec_listen_address(host: Option<Seq<char>>, port: Option<Seq<char>>) -> Seq<char> {
    let h = match host {
        Some(h) => h,
        None => "127.0.0.1"@,
    };
    let p = match port {
        Some(p) => p,
        None => "11435"@,
    };
    h + ":"@ + p
}

/// `host:port` to listen on, from `BGE_HOST` (default loopback only,
/// `127.0.0.1`) and `BGE_PORT` (default `11435`).
pub fn listen_address(host: Option<&str>, port: Option<&str>) -> (r: String)
    ensures
        r@ == spec_listen_address(
            match host {
                Some(h) => Some(h@),
                None => None::<Seq<char>>,
            },
            match port {
                Some(p) => Some(p@),
                None => None::<Seq<char>>,
            },
        ),
{
    let h = match host {
        Some(h) => h,
        None => "127.0.0.1",
    };
    let p = match port {
        Some(p) => p,
        None => "11435",
    };
    join(h, ":").concat(p)
}

/// How many tokens the model accepts: positions start after the padding
/// id, so two entries of the position table are never used by a token.
pub fn truncation_limit(max_position_embeddings: usize) -> (r: usize)
    requires
        max_position_embeddings >= 2,
    ensures
        r == max_position_embeddings - 2,
{
    max_position_embeddings - 2
}

/// The position id of the token at `i` (0-based) when padding has the id `pad`.
pub open spec fn spec_position_id(i: int, pad: int) -> int {
    i + 1 + pad
}

/// Position ids for a sequence of `seq_len` tokens, XLM-RoBERTa style: the
/// 1-based index of each token plus `pad_token_id` (no token is padding in
/// a single sequence).
pub fn position_ids(seq_len: usize, pad_token_id: u32) -> (r: Vec<u32>)
    requires
        seq_len + pad_token_id <= u32::MAX,
    ensures
        r@.len() == seq_len,
        forall|i: int| 0 <= i < seq_len ==> r@[i] == spec_position_id(i, pad_token_id as int),
{
    let mut r: Vec<u32> = Vec::new();
    let mut i: usize = 0;
    while i < seq_len
        invariant
            i <= seq_len,
            seq_len + pad_token_id <= u32::MAX,
            r@.len() == i,
            forall|j: int| 0 <= j < i ==> r@[j] == j + 1 + pad_token_id,
        decreases seq_len - i,
    {
        let v: u32 = (i as u32) + 1 + pad_token_id;
        r.push(v);
        i = i + 1;
    }
    r
}

pub open spec fn spec_worker_count(parallel: usize, inputs: usize) -> usize {
    let m = if parallel < inputs { parallel } else { inputs };
    if m < 1 { 1 } else { m }
}

/// Threads to start for `inputs` texts with `parallel` allowed: at most
/// `parallel`, no more than there are texts, and at least one.
pub fn worker_count(parallel: usize, inputs: usize) -> (r: usize)
    ensures
        r == spec_worker_count(parallel, inputs),
        r >= 1,
        parallel >= 1 ==> r <= parallel,
        inputs >= 1 ==> r <= inputs,
        parallel >= 1 && inputs >= 1 ==> r == parallel || r == inputs,
        parallel == 0 || inputs == 0 ==> r == 1,
{
    let m = if parallel < inputs { parallel } else { inputs };
    if m < 1 {
        1
    } else {
        m
    }
}

/// The indices of `parts` are `0..parts.len()`, each exactly once.
pub open spec fn indices_are_a_permutation<T>(parts: Seq<(usize, T)>) -> bool {
    &&& forall|k: int| 0 <= k < parts.len() ==> (#[trigger] parts[k]).0 < parts.len()
    &&& forall|k: int, l: int|
        0 <= k < parts.len() && 0 <= l < parts.len() && k != l ==> (#[trigger] parts[k]).0 != (
        #[trigger] parts[l]).0
}

/// Whether the indices of `parts` are `0..parts.len()`, each exactly once:
/// the check to make before [`order_by_index`].
pub fn indices_form_a_permutation<T>(parts: &Vec<(usize, T)>) -> (r: bool)
    ensures
        r == indices_are_a_permutation(parts@),
{
    let n = parts.len();
    let mut seen: Vec<bool> = Vec::new();
    let mut j: usize = 0;
    while j < n
        invariant
            j <= n,
            seen@.len() == j,
            forall|x: int| 0 <= x < j ==> !seen@[x],
        decreases n - j,
    {
        seen.push(false);
        j = j + 1;
    }
    let mut i: usize = 0;
    while i < n
        invariant
            n == parts@.len(),
            i <= n,
            seen@.len() == n,
            forall|k: int| 0 <= k < i ==> (#[trigger] parts@[k]).0 < n,
            forall|k: int, l: int|
                0 <= k < i && 0 <= l < i && k != l ==> (#[trigger] parts@[k]).0 != (
                #[trigger] parts@[l]).0,
            forall|x: int|
                0 <= x < n ==> (seen@[x] <==> exists|k: int| 0 <= k < i && (#[trigger] parts@[k]).0 == x),
        decreases n - i,
    {
        let idx = parts[i].0;
        if idx >= n {
            assert(!(parts@[i as int].0 < parts@.len()));
            return false;
        }
        if seen[idx] {
            let ghost k = choose|k: int| 0 <= k < i && (#[trigger] parts@[k]).0 == idx;
            assert(parts@[k].0 == parts@[i as int].0);
            return false;
        }
        let ghost before = seen@;
        seen.set(idx, true);
        assert forall|x: int| 0 <= x < n implies (seen@[x] <==> exists|k: int|
            0 <= k < i + 1 && (#[trigger] parts@[k]).0 == x) by {
            if x == idx {
                assert(parts@[i as int].0 == x);
            } else {
                assert(seen@[x] == before[x]);
                if exists|k: int| 0 <= k < i + 1 && (#[trigger] parts@[k]).0 == x {
                    let k = choose|k: int| 0 <= k < i + 1 && (#[trigger] parts@[k]).0 == x;
                    assert(k != i);
                }
            }
        }
        assert forall|k: int, l: int|
            0 <= k < i + 1 && 0 <= l < i + 1 && k != l implies (#[trigger] parts@[k]).0 != (
            #[trigger] parts@[l]).0 by {
            if k == i && l < i {
                assert(before[parts@[l].0 as int]);
            } else if l == i && k < i {
                assert(before[parts@[k].0 as int]);
            }
        }
        i = i + 1;
    }
    true
}

/// Results tagged with the index of their input, in any order, put back in
/// input order: the result tagged `i` ends up at position `i`.
pub fn order_by_index<T>(parts: Vec<(usize, T)>) -> (r: Vec<T>)
    requires
        indices_are_a_permutation(parts@),
    ensures
        r@.len() == parts@.len(),
        forall|k: int| 0 <= k < parts@.len() ==> r@[(#[trigger] parts@[k]).0 as int] == parts@[k].1,
{
    let ghost all = parts@;
    let n = parts.len();
    let mut slots: Vec<Option<T>> = Vec::new();
    let mut i: usize = 0;
    while i < n
        invariant
            i <= n,
            slots@.len() == i,
            forall|j: int| 0 <= j < i ==> slots@[j] is None,
        decreases n - i,
    {
        slots.push(None);
        i = i + 1;
    }
    let mut parts = parts;
    while parts.len() > 0
        invariant
            n == all.len(),
            indices_are_a_permutation(all),
            slots@.len() == n,
            parts@.len() <= n,
            parts@ == all.subrange(0, parts@.len() as int),
            forall|k: int|
                parts@.len() <= k < n ==> slots@[(#[trigger] all[k]).0 as int] == Some(all[k].1),
            forall|j: int|
                0 <= j < n ==> (slots@[j] is Some <==> exists|k: int|
                    parts@.len() <= k < n && (#[trigger] all[k]).0 == j),
        decreases parts@.len(),
    {
        let ghost before = slots@;
        let ghost m = parts@.len() - 1;
        let (idx, value) = parts.pop().unwrap();
        assert(all[m] == (idx, value));
        slots.set(idx, Some(value));
        assert forall|k: int| parts@.len() <= k < n implies slots@[(#[trigger] all[k]).0 as int]
            == Some(all[k].1) by {
            if k != m {
                assert(all[k].0 != all[m].0);
            }
        }
        assert forall|j: int| 0 <= j < n implies (slots@[j] is Some <==> exists|k: int|
            parts@.len() <= k < n && (#[trigger] all[k]).0 == j) by {
            if j == idx {
                assert(all[m].0 == j);
            } else {
                assert(slots@[j] == before[j]);
                if exists|k: int| m + 1 <= k < n && (#[trigger] all[k]).0 == j {
                    let k = choose|k: int| m + 1 <= k < n && (#[trigger] all[k]).0 == j;
                    assert(parts@.len() <= k < n && all[k].0 == j);
                }
                if exists|k: int| parts@.len() <= k < n && (#[trigger] all[k]).0 == j {
                    let k = choose|k: int| parts@.len() <= k < n && (#[trigger] all[k]).0 == j;
                    assert(k != m);
                    assert(m + 1 <= k < n && all[k].0 == j);
                }
            }
        }
    }
    // Every index in 0..n tags some part, so every slot is filled: the
    // indices are n distinct numbers below n.
    proof {
        lemma_permutation_covers(all);
    }
    let mut r: Vec<T> = Vec::new();
    let mut j: usize = 0;
    while j < n
        invariant
            n == all.len(),
            indices_are_a_permutation(all),
            slots@.len() == n,
            j <= n,
            r@.len() == j,
            forall|k: int| 0 <= k < n ==> slots@[(#[trigger] all[k]).0 as int] == Some(all[k].1) || all[k].0 < j,
            forall|k: int| 0 <= k < n && all[k].0 < j ==> r@[(#[trigger] all[k]).0 as int] == all[k].1,
            forall|i: int| j <= i < n ==> #[trigger] tagged(all, i),
            forall|k: int| 0 <= k < n ==> (#[trigger] all[k]).0 < n,
        decreases n - j,
    {
        let ghost before = slots@;
        assert(tagged(all, j as int));
        let ghost k0 = choose|k: int| 0 <= k < n && (#[trigger] all[k]).0 == j;
        let mut taken: Option<T> = None;
        slots.set_and_swap(j, &mut taken);
        assert(taken == Some(all[k0].1));
        let v = taken.unwrap();
        r.push(v);
        assert forall|k: int| 0 <= k < n implies slots@[(#[trigger] all[k]).0 as int] == Some(all[k].1)
            || all[k].0 < j + 1 by {
            if all[k].0 != j {
                assert(slots@[all[k].0 as int] == before[all[k].0 as int]);
            }
        }
        assert forall|k: int| 0 <= k < n && all[k].0 < j + 1 implies r@[(#[trigger] all[k]).0 as int]
            == all[k].1 by {
            if all[k].0 == j {
                if k != k0 {
                    assert(all[k].0 != all[k0].0);
                }
            }
        }
        j = j + 1;
    }
    r
}

/// Some part is tagged with the index `i`.
pub open spec fn tagged<T>(parts: Seq<(usize, T)>, i: int) -> bool {
    exists|k: int| 0 <= k < parts.len() && (#[trigger] parts[k]).0 == i
}

/// `n` distinct indices below `n` cover every number below `n`.
proof fn lemma_permutation_covers<T>(parts: Seq<(usize, T)>)
    requires
        indices_are_a_permutation(parts),
    ensures
        forall|i: int| 0 <= i < parts.len() ==> #[trigger] tagged(parts, i),
{
    let n = parts.len();
    let idx = Set::new(|i: int| exists|k: int| 0 <= k < n && (#[trigger] parts[k]).0 == i);
    let image = Seq::new(n, |k: int| parts[k].0 as int);
    assert forall|k: int, l: int| 0 <= k < n && 0 <= l < n && k != l implies image[k] != image[l] by {
        assert(parts[k].0 != parts[l].0);
    }
    assert(image.no_duplicates());
    image.unique_seq_to_set();
    vstd::seq_lib::seq_to_set_is_finite(image);
    assert(image.to_set() =~= idx) by {
        assert forall|i: int| image.to_set().contains(i) implies idx.contains(i) by {
            let k = choose|k: int| 0 <= k < image.len() && image[k] == i;
            assert(parts[k].0 == i);
        }
        assert forall|i: int| idx.contains(i) implies image.to_set().contains(i) by {
            let k = choose|k: int| 0 <= k < n && (#[trigger] parts[k]).0 == i;
            assert(image[k] == i);
        }
    }
    let range = Set::new(|i: int| 0 <= i < n);
    assert(idx.subset_of(range));
    vstd::set_lib::lemma_int_range(0, n as int);
    assert(range =~= vstd::set_lib::set_int_range(0, n as int));
    vstd::set_lib::lemma_subset_equality(idx, range);
    assert forall|i: int| 0 <= i < n implies #[trigger] tagged(parts, i) by {
        assert(range.contains(i));
        assert(idx.contains(i));
    }
}

/// Inputs truncated to `truncation_limit(max_position_embeddings)` tokens
/// only use positions inside the model's position table when the padding
/// id is 1 (bge-m3): positions run from 2 to the input length plus one.
pub proof fn truncated_positions_fit_the_table(max_position_embeddings: int, seq_len: int, i: int)
    requires
        max_position_embeddings >= 2,
        0 <= seq_len <= max_position_embeddings - 2,
        0 <= i < seq_len,
    ensures
        2 <= spec_position_id(i, 1) < max_position_embeddings,
{
}

/// `BGE_PARALLEL` set to a positive count gives exactly that many workers;
/// unset, unreadable or zero it gives 4.
pub proof fn parallel_count_is_read_as_written(raw: Option<Seq<char>>)
    ensures
        match raw {
            Some(s) => match parse_usize(s) {
                Some(n) => if n >= 1 { spec_parallel(raw) == n } else { spec_parallel(raw) == 4 },
                None => spec_parallel(raw) == 4,
            },
            None => spec_parallel(raw) == 4,
        },
        spec_parallel(raw) >= 1,
{
}

/// Whatever positive count is written out in decimal, that is the number of
/// workers: `BGE_PARALLEL=n` gives `n` for every `n >= 1`.
pub proof fn parallel_reads_back_a_written_count(n: usize)
    requires
        n >= 1,
    ensures
        spec_parallel(Some(decimal(n as nat))) == n,
        spec_batch_permits(Some(decimal(n as nat))) == n,
{
    lemma_decimal_parses_back(n as nat);
}

/// `BGE_TOPLU_IZIN` set to a positive count gives exactly that many
/// permits; unset, unreadable or zero it gives 1.
pub proof fn batch_permits_are_read_as_written(raw: Option<Seq<char>>)
    ensures
        match raw {
            Some(s) => match parse_usize(s) {
                Some(n) => if n >= 1 { spec_batch_permits(raw) == n } else { spec_batch_permits(raw) == 1 },
                None => spec_batch_permits(raw) == 1,
            },
            None => spec_batch_permits(raw) == 1,
        },
{
}

/// The listen address is the host, a `:`, and the port: it starts with the
/// given host (else `127.0.0.1`) and a `:`, ends with a `:` and the given port
/// (else `11435`), and holds nothing else; host and port do not affect each
/// other.
pub proof fn listen_address_is_host_colon_port(host: Option<Seq<char>>, port: Option<Seq<char>>)
    ensures
        ({
            let a = spec_listen_address(host, port);
            let h = match host {
                Some(h) => h,
                None => "127.0.0.1"@,
            };
            let p = match port {
                Some(p) => p,
                None => "11435"@,
            };
            &&& has_prefix(a, h + ":"@)
            &&& has_suffix(a, ":"@ + p)
            &&& a.len() == h.len() + 1 + p.len()
            &&& a[h.len() as int] == ':'
            &&& a.subrange(h.len() + 1int, a.len() as int) == p
            &&& spec_listen_address(host, None).subrange(0, h.len() as int) == h
            &&& spec_listen_address(None, port).subrange(10, spec_listen_address(None, port).len() as int) == p
        }),
{
    reveal_strlit(":");
    reveal_strlit("127.0.0.1");
    reveal_strlit("11435");
    let a = spec_listen_address(host, port);
    let h = match host {
        Some(h) => h,
        None => "127.0.0.1"@,
    };
    let p = match port {
        Some(p) => p,
        None => "11435"@,
    };
    assert(a =~= h + ":"@ + p);
    assert(a.subrange(0, (h + ":"@).len() as int) =~= h + ":"@);
    assert(a.subrange(a.len() - (":"@ + p).len(), a.len() as int) =~= ":"@ + p);
    assert(a.subrange(h.len() + 1int, a.len() as int) =~= p);
    let b = spec_listen_address(host, None);
    assert(b.subrange(0, h.len() as int) =~= h);
    let c = spec_listen_address(None, port);
    assert(c =~= "127.0.0.1"@ + ":"@ + p);
    assert(c.subrange(10, c.len() as int) =~= p);
}

/// The number of worker threads is the smaller of the allowed parallelism
/// and the number of inputs, and one when either is zero.
pub proof fn worker_count_is_the_smaller_of_the_two(parallel: usize, inputs: usize)
    ensures
        parallel >= 1 && inputs >= 1 && parallel <= inputs ==> spec_worker_count(parallel, inputs) == parallel,
        parallel >= 1 && inputs >= 1 && inputs <= parallel ==> spec_worker_count(parallel, inputs) == inputs,
        parallel == 0 || inputs == 0 ==> spec_worker_count(parallel, inputs) == 1,
{
}

/// Position ids count up by one from just past the padding id: the first
/// token gets `pad + 1`, and each next token one more than the one before.
pub proof fn position_ids_count_up_from_past_the_padding(i: int, pad: int)
    ensures
        spec_position_id(0, pad) == pad + 1,
        spec_position_id(i + 1, pad) == spec_position_id(i, pad) + 1,
        spec_position_id(i, pad) - spec_position_id(0, pad) == i,
{
}

/// Only a request of exactly one input shorter than 512 characters skips the
/// batch limit: two or more inputs, none, or a 512-character input wait.
pub proof fn only_one_short_input_skips_the_batch_limit(inputs: Seq<String>)
    ensures
        inputs.len() != 1 ==> !spec_skips_batch_limit(inputs),
        inputs.len() == 1 && inputs[0]@.len() < 512 ==> spec_skips_batch_limit(inputs),
        inputs.len() == 1 && inputs[0]@.len() >= 512 ==> !spec_skips_batch_limit(inputs),
{
}

} // verus!
