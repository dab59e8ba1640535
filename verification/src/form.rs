use vstd::prelude::*;

verus! {

/// The two fields that a subscription form carries.
#[derive(Debug, Clone, Copy, PartialEq, Eq, Structural)]
pub enum Field {
    Email,
    Name,
}

/// Why a form body does not make a subscription form.
#[derive(Debug, Clone, Copy, PartialEq, Eq, Structural)]
pub enum FormError {
    /// The field was not sent at all.
    MissingField(Field),
    /// The field was sent more than once.
    DuplicateField(Field),
}

/// A subscription request: both fields are required.
#[derive(Debug)]
pub struct FormData {
    pub email: String,
    pub name: String,
}

/// The key under which a field is sent in the form body.
pub open spec fn field_key(f: Field) -> Seq<char> {
    match f {
        Field::Email => "email"@,
        Field::Name => "name"@,
    }
}

/// A key that names one of the form's fields.
pub open spec fn is_field_key(k: Seq<char>) -> bool {
    k == field_key(Field::Email) || k == field_key(Field::Name)
}

/// The field that a field key names.
pub open spec fn field_of_key(k: Seq<char>) -> Field {
    if k == field_key(Field::Email) {
        Field::Email
    } else {
        Field::Name
    }
}

/// Some pair is sent under key `k`.
pub open spec fn has_key(pairs: Seq<(Seq<char>, Seq<char>)>, k: Seq<char>) -> bool {
    exists|i: int| #![trigger pairs[i]] 0 <= i < pairs.len() && pairs[i].0 == k
}

/// Exactly one pair is sent under key `k`.
pub open spec fn has_key_once(pairs: Seq<(Seq<char>, Seq<char>)>, k: Seq<char>) -> bool {
    exists|i: int|
        #![trigger pairs[i]]
        0 <= i < pairs.len() && pairs[i].0 == k && forall|j: int|
            #![trigger pairs[j]]
            0 <= j < pairs.len() && pairs[j].0 == k ==> j == i
}

/// The pair at `j` repeats a field that an earlier pair already sent.
pub open spec fn repeated_at(pairs: Seq<(Seq<char>, Seq<char>)>, j: int) -> bool {
    &&& 0 <= j < pairs.len()
    &&& is_field_key(pairs[j].0)
    &&& exists|i: int| #![trigger pairs[i]] 0 <= i < j && pairs[i].0 == pairs[j].0
}

/// The pair at `j` is the first one that repeats a field.
pub open spec fn first_repeat_at(pairs: Seq<(Seq<char>, Seq<char>)>, j: int) -> bool {
    &&& repeated_at(pairs, j)
    &&& forall|k: int| #![trigger repeated_at(pairs, k)] 0 <= k < j ==> !repeated_at(pairs, k)
}

/// Some field is sent more than once.
pub open spec fn has_repeat(pairs: Seq<(Seq<char>, Seq<char>)>) -> bool {
    exists|j: int| #[trigger] repeated_at(pairs, j)
}

/// The value sent under key `k` (meaningful when exactly one pair has that key).
pub open spec fn value_of(pairs: Seq<(Seq<char>, Seq<char>)>, k: Seq<char>) -> Seq<char> {
    pairs[key_index(pairs, k)].1
}

/// A place at which a pair is sent under key `k`, where there is one.
pub open spec fn key_index(pairs: Seq<(Seq<char>, Seq<char>)>, k: Seq<char>) -> int {
    choose|i: int| #![trigger pairs[i]] 0 <= i < pairs.len() && pairs[i].0 == k
}

/// What a sequence of decoded key/value pairs makes of a subscription form:
/// the first repeated field is refused, then a missing `email`, then a
/// missing `name`; otherwise the form holds the value of each field.
/// Pairs under any other key are ignored.
pub open spec fn form_outcome(pairs: Seq<(Seq<char>, Seq<char>)>) -> Result<
    (Seq<char>, Seq<char>),
    FormError,
> {
    if has_repeat(pairs) {
        let j = choose|j: int| first_repeat_at(pairs, j);
        Err(FormError::DuplicateField(field_of_key(pairs[j].0)))
    } else if !has_key(pairs, field_key(Field::Email)) {
        Err(FormError::MissingField(Field::Email))
    } else if !has_key(pairs, field_key(Field::Name)) {
        Err(FormError::MissingField(Field::Name))
    } else {
        Ok((value_of(pairs, field_key(Field::Email)), value_of(pairs, field_key(Field::Name))))
    }
}

/// The key/value pairs as character sequences.
pub open spec fn pairs_view(v: Seq<(String, String)>) -> Seq<(Seq<char>, Seq<char>)> {
    v.map_values(|p: (String, String)| (p.0@, p.1@))
}

/// A form result with the form taken as its `(email, name)` values.
pub open spec fn form_result_view(r: Result<FormData, FormError>) -> Result<
    (Seq<char>, Seq<char>),
    FormError,
> {
    match r {
        Ok(f) => Ok((f.email@, f.name@)),
        Err(e) => Err(e),
    }
}

/// The two field keys differ.
pub proof fn lemma_field_keys_differ()
    ensures
        field_key(Field::Email) != field_key(Field::Name),
{
    reveal_strlit("email");
    reveal_strlit("name");
    assert(field_key(Field::Email).len() != field_key(Field::Name).len());
}

proof fn lemma_first_repeat_from(pairs: Seq<(Seq<char>, Seq<char>)>, j: int)
    requires
        repeated_at(pairs, j),
    ensures
        exists|k: int| first_repeat_at(pairs, k),
    decreases j,
{
    if forall|k: int| #![trigger repeated_at(pairs, k)] 0 <= k < j ==> !repeated_at(pairs, k) {
        assert(first_repeat_at(pairs, j));
    } else {
        let k = choose|k: int| #![trigger repeated_at(pairs, k)] 0 <= k < j && repeated_at(pairs, k);
        lemma_first_repeat_from(pairs, k);
    }
}

proof fn lemma_first_repeat_unique(pairs: Seq<(Seq<char>, Seq<char>)>, a: int, b: int)
    requires
        first_repeat_at(pairs, a),
        first_repeat_at(pairs, b),
    ensures
        a == b,
{
    if a < b {
        assert(!repeated_at(pairs, a));
    } else if b < a {
        assert(!repeated_at(pairs, b));
    }
}

/// Where no field repeats, a field key is sent at one place at most.
proof fn lemma_no_repeat_unique(pairs: Seq<(Seq<char>, Seq<char>)>, a: int, b: int)
    requires
        !has_repeat(pairs),
        0 <= a < pairs.len(),
        0 <= b < pairs.len(),
        is_field_key(pairs[a].0),
        pairs[a].0 == pairs[b].0,
    ensures
        a == b,
{
    if a < b {
        assert(repeated_at(pairs, b));
    } else if b < a {
        assert(repeated_at(pairs, a));
    }
}

/// Where no field repeats and `k` is sent at `i`, the value under `k` is the one at `i`.
proof fn lemma_value_at(pairs: Seq<(Seq<char>, Seq<char>)>, k: Seq<char>, i: int)
    requires
        !has_repeat(pairs),
        is_field_key(k),
        0 <= i < pairs.len(),
        pairs[i].0 == k,
    ensures
        value_of(pairs, k) == pairs[i].1,
{
    assert(exists|c: int| #![trigger pairs[c]] 0 <= c < pairs.len() && pairs[c].0 == k) by {
        assert(pairs[i].0 == k);
    }
    let c = key_index(pairs, k);
    assert(0 <= c < pairs.len() && pairs[c].0 == k);
    lemma_no_repeat_unique(pairs, c, i);
}

/// Where the first repeated field is at `j`, the outcome names that field.
proof fn lemma_outcome_duplicate(pairs: Seq<(Seq<char>, Seq<char>)>, j: int)
    requires
        first_repeat_at(pairs, j),
    ensures
        form_outcome(pairs) == Err::<(Seq<char>, Seq<char>), FormError>(
            FormError::DuplicateField(field_of_key(pairs[j].0)),
        ),
{
    assert(has_repeat(pairs));
    let c = choose|c: int| first_repeat_at(pairs, c);
    lemma_first_repeat_unique(pairs, c, j);
}

/// Whether `s` is the text of `lit`.
pub(crate) fn text_is(s: &String, lit: &str) -> (r: bool)
    ensures
        r == (s@ == lit@),
{
    let l = lit.to_owned();
    *s == l
}

/// Reads a subscription form out of decoded key/value pairs, as the
/// field-by-field scan of the pairs does: a field sent twice is refused at
/// its second occurrence, a missing field is refused after the scan
/// (`email` before `name`), and pairs under other keys are skipped.
pub fn extract_form(pairs: &Vec<(String, String)>) -> (res: Result<FormData, FormError>)
    ensures
        form_result_view(res) == form_outcome(pairs_view(pairs@)),
{
    let ghost pv = pairs_view(pairs@);
    proof {
        lemma_field_keys_differ();
    }
    let n = pairs.len();
    let mut email_at: Option<usize> = None;
    let mut name_at: Option<usize> = None;
    let mut i: usize = 0;
    while i < n
        invariant
            n == pairs@.len(),
            pv == pairs_view(pairs@),
            pv.len() == n,
            field_key(Field::Email) != field_key(Field::Name),
            i <= n,
            forall|k: int| 0 <= k < i ==> !#[trigger] repeated_at(pv, k),
            match email_at {
                Some(e) => e < i && pv[e as int].0 == field_key(Field::Email),
                None => forall|k: int|
                    #![trigger pv[k]]
                    0 <= k < i ==> pv[k].0 != field_key(Field::Email),
            },
            match name_at {
                Some(e) => e < i && pv[e as int].0 == field_key(Field::Name),
                None => forall|k: int|
                    #![trigger pv[k]]
                    0 <= k < i ==> pv[k].0 != field_key(Field::Name),
            },
        decreases n - i,
    {
        assert(pv[i as int].0 == pairs@[i as int].0@);
        let is_email = text_is(&pairs[i].0, "email");
        let is_name = text_is(&pairs[i].0, "name");
        if is_email {
            if let Some(e) = email_at {
                proof {
                    assert(pv[e as int].0 == pv[i as int].0);
                    assert(repeated_at(pv, i as int));
                    assert(first_repeat_at(pv, i as int));
                    lemma_outcome_duplicate(pv, i as int);
                }
                return Err(FormError::DuplicateField(Field::Email));
            }
            email_at = Some(i);
        } else if is_name {
            if let Some(e) = name_at {
                proof {
                    assert(pv[e as int].0 == pv[i as int].0);
                    assert(repeated_at(pv, i as int));
                    assert(first_repeat_at(pv, i as int));
                    lemma_outcome_duplicate(pv, i as int);
                }
                return Err(FormError::DuplicateField(Field::Name));
            }
            name_at = Some(i);
        }
        proof {
            if repeated_at(pv, i as int) {
                let c = choose|c: int| #![trigger pv[c]] 0 <= c < i && pv[c].0 == pv[i as int].0;
                assert(pv[c].0 == pv[i as int].0);
            }
        }
        i = i + 1;
    }
    proof {
        if has_repeat(pv) {
            let j = choose|j: int| #[trigger] repeated_at(pv, j);
            assert(repeated_at(pv, j));
        }
    }
    match email_at {
        None => {
            assert(!has_key(pv, field_key(Field::Email)));
            Err(FormError::MissingField(Field::Email))
        },
        Some(e) => {
            match name_at {
                None => {
                    assert(has_key(pv, field_key(Field::Email))) by {
                        assert(pv[e as int].0 == field_key(Field::Email));
                    }
                    assert(!has_key(pv, field_key(Field::Name)));
                    Err(FormError::MissingField(Field::Name))
                },
                Some(m) => {
                    let email = pairs[e].1.clone();
                    let name = pairs[m].1.clone();
                    proof {
                        assert(pv[e as int].0 == field_key(Field::Email));
                        assert(pv[m as int].0 == field_key(Field::Name));
                        assert(has_key(pv, field_key(Field::Email)));
                        assert(has_key(pv, field_key(Field::Name)));
                        lemma_value_at(pv, field_key(Field::Email), e as int);
                        lemma_value_at(pv, field_key(Field::Name), m as int);
                    }
                    Ok(FormData { email, name })
                },
            }
        },
    }
}

/// The key/value pairs that `serde_urlencoded` decodes out of an
/// `application/x-www-form-urlencoded` body: the body is split at `&`,
/// empty pieces are skipped, each piece is split at its first `=`, and
/// both halves are `+`-to-space and percent decoded, then read as UTF-8
/// with invalid sequences replaced.
pub uninterp spec fn urlencoded_pairs(body: Seq<u8>) -> Seq<(Seq<char>, Seq<char>)>;

/// Calls `serde_urlencoded::from_bytes` into a `Vec<(String, String)>`.
/// Its result is the sequence of decoded pairs, in the order of the body,
/// named `urlencoded_pairs`; an empty body has no pairs. Decoding into
/// string pairs cannot fail in that crate (the pair parser of
/// `form_urlencoded` is lossy and never refuses a byte), so the error arm
/// is never taken.
#[verifier::external_body]
fn decode_pairs(body: &[u8]) -> (pairs: Vec<(String, String)>)
    ensures
        pairs_view(pairs@) == urlencoded_pairs(body@),
        body@.len() == 0 ==> pairs@.len() == 0,
{
    serde_urlencoded::from_bytes::<Vec<(String, String)>>(body).unwrap_or_default()
}

/// Reads a subscription form out of an url-encoded request body.
pub fn parse_form(body: &[u8]) -> (res: Result<FormData, FormError>)
    ensures
        form_result_view(res) == form_outcome(urlencoded_pairs(body@)),
        body@.len() == 0 ==> res == Err::<FormData, FormError>(
            FormError::MissingField(Field::Email),
        ),
{
    let pairs = decode_pairs(body);
    let res = extract_form(&pairs);
    proof {
        if body@.len() == 0 {
            lemma_empty_form();
        }
    }
    res
}

/// Nothing sent: the form lacks its `email` field.
pub proof fn lemma_empty_form()
    ensures
        form_outcome(Seq::empty()) == Err::<(Seq<char>, Seq<char>), FormError>(
            FormError::MissingField(Field::Email),
        ),
{
    let e = Seq::<(Seq<char>, Seq<char>)>::empty();
    assert(!has_repeat(e));
    assert(!has_key(e, field_key(Field::Email)));
}

/// A form is accepted exactly when each of its two fields is sent exactly once.
pub proof fn lemma_accepted_iff_each_field_once(pairs: Seq<(Seq<char>, Seq<char>)>)
    ensures
        form_outcome(pairs) is Ok <==> (has_key_once(pairs, field_key(Field::Email))
            && has_key_once(pairs, field_key(Field::Name))),
{
    lemma_field_keys_differ();
    if form_outcome(pairs) is Ok {
        assert(!has_repeat(pairs));
        let ie = choose|i: int| #![trigger pairs[i]] 0 <= i < pairs.len() && pairs[i].0 == field_key(Field::Email);
        let im = choose|i: int| #![trigger pairs[i]] 0 <= i < pairs.len() && pairs[i].0 == field_key(Field::Name);
        assert forall|j: int| #![trigger pairs[j]] 0 <= j < pairs.len() && pairs[j].0 == field_key(Field::Email) implies j == ie by {
            lemma_no_repeat_unique(pairs, ie, j);
        }
        assert forall|j: int| #![trigger pairs[j]] 0 <= j < pairs.len() && pairs[j].0 == field_key(Field::Name) implies j == im by {
            lemma_no_repeat_unique(pairs, im, j);
        }
        assert(pairs[ie].0 == field_key(Field::Email));
        assert(pairs[im].0 == field_key(Field::Name));
    }
    if has_key_once(pairs, field_key(Field::Email)) && has_key_once(pairs, field_key(Field::Name)) {
        if has_repeat(pairs) {
            let j = choose|j: int| #[trigger] repeated_at(pairs, j);
            let i = choose|i: int| #![trigger pairs[i]] 0 <= i < j && pairs[i].0 == pairs[j].0;
            assert(pairs[i].0 == pairs[j].0);
            assert(pairs[j].0 == field_key(Field::Email) || pairs[j].0 == field_key(Field::Name));
        }
        let ie = choose|i: int|
            #![trigger pairs[i]]
            0 <= i < pairs.len() && pairs[i].0 == field_key(Field::Email) && forall|j: int|
                #![trigger pairs[j]]
                0 <= j < pairs.len() && pairs[j].0 == field_key(Field::Email) ==> j == i;
        let im = choose|i: int|
            #![trigger pairs[i]]
            0 <= i < pairs.len() && pairs[i].0 == field_key(Field::Name) && forall|j: int|
                #![trigger pairs[j]]
                0 <= j < pairs.len() && pairs[j].0 == field_key(Field::Name) ==> j == i;
        assert(pairs[ie].0 == field_key(Field::Email));
        assert(pairs[im].0 == field_key(Field::Name));
    }
}

/// An accepted form holds the values sent under `email` and `name`.
pub proof fn lemma_accepted_values(pairs: Seq<(Seq<char>, Seq<char>)>, ie: int, im: int)
    requires
        form_outcome(pairs) is Ok,
        0 <= ie < pairs.len(),
        0 <= im < pairs.len(),
        pairs[ie].0 == field_key(Field::Email),
        pairs[im].0 == field_key(Field::Name),
    ensures
        form_outcome(pairs) == Ok::<(Seq<char>, Seq<char>), FormError>((pairs[ie].1, pairs[im].1)),
{
    assert(!has_repeat(pairs));
    lemma_value_at(pairs, field_key(Field::Email), ie);
    lemma_value_at(pairs, field_key(Field::Name), im);
}

/// A pair under a key that names no field changes nothing of the outcome.
pub proof fn lemma_other_keys_ignored(
    pairs: Seq<(Seq<char>, Seq<char>)>,
    extra: (Seq<char>, Seq<char>),
)
    requires
        !is_field_key(extra.0),
    ensures
        form_outcome(pairs.push(extra)) == form_outcome(pairs),
{
    let q = pairs.push(extra);
    let n = pairs.len() as int;
    assert forall|j: int| #[trigger] repeated_at(q, j) <==> repeated_at(pairs, j) by {
        if repeated_at(q, j) {
            assert(j != n);
            let i = choose|i: int| #![trigger q[i]] 0 <= i < j && q[i].0 == q[j].0;
            assert(q[i] == pairs[i]);
            assert(pairs[i].0 == pairs[j].0);
        }
        if repeated_at(pairs, j) {
            let i = choose|i: int| #![trigger pairs[i]] 0 <= i < j && pairs[i].0 == pairs[j].0;
            assert(q[i] == pairs[i]);
            assert(q[i].0 == q[j].0);
        }
    }
    if has_repeat(pairs) {
        let j = choose|j: int| #[trigger] repeated_at(pairs, j);
        assert(repeated_at(q, j));
        lemma_first_repeat_from(pairs, j);
        let f = choose|f: int| first_repeat_at(pairs, f);
        assert(first_repeat_at(q, f));
        lemma_outcome_duplicate(pairs, f);
        lemma_outcome_duplicate(q, f);
    } else {
        if has_repeat(q) {
            let j = choose|j: int| #[trigger] repeated_at(q, j);
            assert(repeated_at(pairs, j));
        }
        let ek = field_key(Field::Email);
        let nk = field_key(Field::Name);
        if has_key(pairs, ek) {
            let i = choose|i: int| #![trigger pairs[i]] 0 <= i < pairs.len() && pairs[i].0 == ek;
            assert(q[i] == pairs[i]);
            lemma_value_at(pairs, ek, i);
            lemma_value_at(q, ek, i);
        } else {
            assert forall|i: int| #![trigger q[i]] 0 <= i < q.len() implies q[i].0 != ek by {
                if i < n {
                    assert(q[i] == pairs[i]);
                }
            }
        }
        if has_key(pairs, nk) {
            let i = choose|i: int| #![trigger pairs[i]] 0 <= i < pairs.len() && pairs[i].0 == nk;
            assert(q[i] == pairs[i]);
            lemma_value_at(pairs, nk, i);
            lemma_value_at(q, nk, i);
        } else {
            assert forall|i: int| #![trigger q[i]] 0 <= i < q.len() implies q[i].0 != nk by {
                if i < n {
                    assert(q[i] == pairs[i]);
                }
            }
        }
    }
}

} // verus!
