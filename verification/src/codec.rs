//! The persisted form of a result set: a single JSON object with the
//! fields `season`, `update_time` and `items`. The writer renders the
//! canonical compact layout; the reader accepts exactly that layout
//! and is proved to recover the written value, field for field —
//! including the normalizations the layout performs: an absent
//! candidate list reads back as the empty one, absent optional fields
//! as `None`.

use vstd::prelude::*;
use vstd::string::StrSliceExecFns;
use vstd::string::StringExecFns;

use crate::model::{
    BgmCandidate, CandidateView, ConfirmStatus, ItemView, MalInfo, MalInfoView, MediaType, Rating,
    SeasonData, SeasonDataView, SeasonItem,
};
use crate::text::{
    dec_digits, digits_end, digits_to_u64, digits_val, is_digit, lemma_dec_digits_shape,
    lemma_digits_run, lemma_digits_val_of_dec, scan_digits, skip_ws, u64_to_string, ws_end,
};

verus! {

// ------------------------------------------------------------------
// The printed form.
// ------------------------------------------------------------------

/// How one character is written inside a JSON string: quotes and
/// backslashes are escaped, everything else stands as itself.
pub open spec fn esc_char(c: char) -> Seq<char> {
    if c == '"' {
        seq!['\\', '"']
    } else if c == '\\' {
        seq!['\\', '\\']
    } else {
        seq![c]
    }
}

/// The written body of a string, character by character.
pub open spec fn esc_str(v: Seq<char>) -> Seq<char>
    decreases v.len(),
{
    if v.len() == 0 {
        Seq::<char>::empty()
    } else {
        esc_char(v[0]) + esc_str(v.drop_first())
    }
}

/// A written string: its escaped body between quotes.
pub open spec fn pstr(v: Seq<char>) -> Seq<char> {
    seq!['"'] + esc_str(v) + seq!['"']
}

/// The written name of a confirmation status.
pub open spec fn status_lit(st: ConfirmStatus) -> Seq<char> {
    match st {
        ConfirmStatus::Unconfirmed => "\"unconfirmed\""@,
        ConfirmStatus::Match => "\"match\""@,
        ConfirmStatus::Model => "\"model\""@,
        ConfirmStatus::Human => "\"human\""@,
    }
}

/// The written name of a media kind.
pub open spec fn media_lit(mt: MediaType) -> Seq<char> {
    match mt {
        MediaType::Tv => "\"tv\""@,
        MediaType::Ova => "\"ova\""@,
        MediaType::Ona => "\"ona\""@,
        MediaType::Movie => "\"movie\""@,
        MediaType::Special => "\"special\""@,
        MediaType::TvSpecial => "\"tv_special\""@,
    }
}

/// The written name of an audience rating.
pub open spec fn rating_lit(rt: Rating) -> Seq<char> {
    match rt {
        Rating::Kids => "\"kids\""@,
        Rating::General => "\"general\""@,
        Rating::R18 => "\"r18\""@,
    }
}

/// The written form of the catalog-A half of a record.
pub open spec fn print_mal(m: MalInfoView) -> Seq<char> {
    "{\"id\":"@ + dec_digits(m.id as nat) + ",\"title\":"@ + pstr(m.title) + (match m.title_ja {
        Some(j) => ",\"title_ja\":"@ + pstr(j),
        None => Seq::<char>::empty(),
    }) + ",\"media_type\":"@ + media_lit(m.media_type) + ",\"rating\":"@ + rating_lit(m.rating)
        + seq!['}']
}

/// The written form of one candidate.
pub open spec fn print_cand(c: CandidateView) -> Seq<char> {
    "{\"bgm_id\":"@ + dec_digits(c.bgm_id as nat) + ",\"bgm_name\":"@ + pstr(c.bgm_name) + (
    match c.bgm_name_cn {
        Some(cn) => ",\"bgm_name_cn\":"@ + pstr(cn),
        None => Seq::<char>::empty(),
    }) + seq!['}']
}

/// The written continuation of a candidate list: a comma before each
/// further element.
pub open spec fn print_cands_rest(cs: Seq<CandidateView>) -> Seq<char>
    decreases cs.len(),
{
    if cs.len() == 0 {
        Seq::<char>::empty()
    } else {
        seq![','] + print_cand(cs[0]) + print_cands_rest(cs.drop_first())
    }
}

/// A written candidate list.
pub open spec fn print_cands(cs: Seq<CandidateView>) -> Seq<char> {
    if cs.len() == 0 {
        "[]"@
    } else {
        seq!['['] + print_cand(cs[0]) + print_cands_rest(cs.drop_first()) + seq![']']
    }
}

/// The written resolved-identifier field of a record, when present.
pub open spec fn seg_bgm_id(it: ItemView) -> Seq<char> {
    match it.bgm_id {
        Some(id) => ",\"bgm_id\":"@ + dec_digits(id as nat),
        None => Seq::<char>::empty(),
    }
}

/// The written resolved-name field of a record, when present.
pub open spec fn seg_bgm_name(it: ItemView) -> Seq<char> {
    match it.bgm_name {
        Some(nm) => ",\"bgm_name\":"@ + pstr(nm),
        None => Seq::<char>::empty(),
    }
}

/// The written localized-name field of a record, when present.
pub open spec fn seg_bgm_name_cn(it: ItemView) -> Seq<char> {
    match it.bgm_name_cn {
        Some(cn) => ",\"bgm_name_cn\":"@ + pstr(cn),
        None => Seq::<char>::empty(),
    }
}

/// The written candidate list of a record; an empty list is left out.
pub open spec fn seg_cands(it: ItemView) -> Seq<char> {
    if it.candidates.len() > 0 {
        ",\"candidates\":"@ + print_cands(it.candidates)
    } else {
        Seq::<char>::empty()
    }
}

/// The written form of one link record. Absent optional fields are
/// left out entirely; so is an empty candidate list.
pub open spec fn print_item(it: ItemView) -> Seq<char> {
    "{\"status\":"@ + status_lit(it.status) + seg_bgm_id(it) + seg_bgm_name(it) + seg_bgm_name_cn(
        it,
    ) + seg_cands(it) + ",\"mal\":"@ + print_mal(it.mal) + seq!['}']
}

/// The written continuation of the record list.
pub open spec fn print_items_rest(its: Seq<ItemView>) -> Seq<char>
    decreases its.len(),
{
    if its.len() == 0 {
        Seq::<char>::empty()
    } else {
        seq![','] + print_item(its[0]) + print_items_rest(its.drop_first())
    }
}

/// A written record list.
pub open spec fn print_items(its: Seq<ItemView>) -> Seq<char> {
    if its.len() == 0 {
        "[]"@
    } else {
        seq!['['] + print_item(its[0]) + print_items_rest(its.drop_first()) + seq![']']
    }
}

/// The whole persisted text of a result set.
pub open spec fn json_of(d: SeasonDataView) -> Seq<char> {
    "{\"season\":"@ + pstr(d.season) + ",\"update_time\":"@ + pstr(d.update_time) + ",\"items\":"@
        + print_items(d.items) + seq!['}']
}

// ------------------------------------------------------------------
// The read form: an exact recursive-descent grammar over positions.
// ------------------------------------------------------------------

/// The text holds exactly this literal at position `i`.
pub open spec fn lit_at(s: Seq<char>, i: int, lit: Seq<char>) -> bool {
    0 <= i && i + lit.len() <= s.len() && s.subrange(i, i + lit.len()) == lit
}

/// Reads the body of a string up to (not over) its closing quote.
pub open spec fn p_chars(s: Seq<char>, i: int) -> Option<(Seq<char>, int)>
    decreases s.len() - i
        when 0 <= i <= s.len()
{
    if i >= s.len() {
        None
    } else if s[i] == '"' {
        Some((Seq::<char>::empty(), i))
    } else if s[i] == '\\' {
        if i + 1 < s.len() && (s[i + 1] == '"' || s[i + 1] == '\\') {
            match p_chars(s, i + 2) {
                Some((t, j)) => Some((seq![s[i + 1]] + t, j)),
                None => None,
            }
        } else {
            None
        }
    } else {
        match p_chars(s, i + 1) {
            Some((t, j)) => Some((seq![s[i]] + t, j)),
            None => None,
        }
    }
}

/// Reads a quoted string.
pub open spec fn p_string(s: Seq<char>, i: int) -> Option<(Seq<char>, int)> {
    if 0 <= i && i < s.len() && s[i] == '"' {
        match p_chars(s, i + 1) {
            Some((v, j)) => if j < s.len() && s[j] == '"' {
                Some((v, j + 1))
            } else {
                None
            },
            None => None,
        }
    } else {
        None
    }
}

/// Reads an unsigned decimal number: at least one digit, no leading
/// zero, a value that fits 64 bits.
pub open spec fn p_u64(s: Seq<char>, i: int) -> Option<(u64, int)> {
    if !(0 <= i <= s.len()) {
        None
    } else {
        let j = digits_end(s, i);
        if j == i {
            None
        } else if s[i] == '0' && j > i + 1 {
            None
        } else if digits_val(s, i, j) > u64::MAX {
            None
        } else {
            Some((digits_val(s, i, j) as u64, j))
        }
    }
}

/// Reads a confirmation status, written as its quoted name.
pub open spec fn p_status(s: Seq<char>, i: int) -> Option<(ConfirmStatus, int)> {
    if lit_at(s, i, "\"unconfirmed\""@) {
        Some((ConfirmStatus::Unconfirmed, i + "\"unconfirmed\""@.len()))
    } else if lit_at(s, i, "\"match\""@) {
        Some((ConfirmStatus::Match, i + "\"match\""@.len()))
    } else if lit_at(s, i, "\"model\""@) {
        Some((ConfirmStatus::Model, i + "\"model\""@.len()))
    } else if lit_at(s, i, "\"human\""@) {
        Some((ConfirmStatus::Human, i + "\"human\""@.len()))
    } else {
        None
    }
}

/// Reads a media kind, written as its quoted name.
pub open spec fn p_media(s: Seq<char>, i: int) -> Option<(MediaType, int)> {
    if lit_at(s, i, "\"tv\""@) {
        Some((MediaType::Tv, i + "\"tv\""@.len()))
    } else if lit_at(s, i, "\"ova\""@) {
        Some((MediaType::Ova, i + "\"ova\""@.len()))
    } else if lit_at(s, i, "\"ona\""@) {
        Some((MediaType::Ona, i + "\"ona\""@.len()))
    } else if lit_at(s, i, "\"movie\""@) {
        Some((MediaType::Movie, i + "\"movie\""@.len()))
    } else if lit_at(s, i, "\"special\""@) {
        Some((MediaType::Special, i + "\"special\""@.len()))
    } else if lit_at(s, i, "\"tv_special\""@) {
        Some((MediaType::TvSpecial, i + "\"tv_special\""@.len()))
    } else {
        None
    }
}

/// Reads an audience rating, written as its quoted name.
pub open spec fn p_rating(s: Seq<char>, i: int) -> Option<(Rating, int)> {
    if lit_at(s, i, "\"kids\""@) {
        Some((Rating::Kids, i + "\"kids\""@.len()))
    } else if lit_at(s, i, "\"general\""@) {
        Some((Rating::General, i + "\"general\""@.len()))
    } else if lit_at(s, i, "\"r18\""@) {
        Some((Rating::R18, i + "\"r18\""@.len()))
    } else {
        None
    }
}

/// Reads an optional numeric field: its key literal followed by a
/// number, or nothing.
pub open spec fn p_opt_num(s: Seq<char>, i: int, lit: Seq<char>) -> Option<(Option<u64>, int)> {
    if lit_at(s, i, lit) {
        match p_u64(s, i + lit.len()) {
            Some((v, j)) => Some((Some(v), j)),
            None => None,
        }
    } else {
        Some((None, i))
    }
}

/// Reads an optional string field: its key literal followed by a
/// string, or nothing.
pub open spec fn p_opt_str(s: Seq<char>, i: int, lit: Seq<char>) -> Option<
    (Option<Seq<char>>, int),
> {
    if lit_at(s, i, lit) {
        match p_string(s, i + lit.len()) {
            Some((v, j)) => Some((Some(v), j)),
            None => None,
        }
    } else {
        Some((None, i))
    }
}

/// Reads one candidate object.
pub open spec fn p_cand(s: Seq<char>, i: int) -> Option<(CandidateView, int)> {
    if !lit_at(s, i, "{\"bgm_id\":"@) {
        None
    } else {
        match p_u64(s, i + "{\"bgm_id\":"@.len()) {
            Some((id, j1)) => if !lit_at(s, j1, ",\"bgm_name\":"@) {
                None
            } else {
                match p_string(s, j1 + ",\"bgm_name\":"@.len()) {
                    Some((nm, j2)) => match p_opt_str(s, j2, ",\"bgm_name_cn\":"@) {
                        Some((cn, j3)) => if lit_at(s, j3, seq!['}']) {
                            Some((CandidateView { bgm_id: id, bgm_name: nm, bgm_name_cn: cn }, j3 + 1))
                        } else {
                            None
                        },
                        None => None,
                    },
                    None => None,
                }
            },
            None => None,
        }
    }
}

/// Reads the continuation of a candidate list.
pub open spec fn p_cands_rest(s: Seq<char>, i: int) -> Option<(Seq<CandidateView>, int)>
    decreases s.len() - i
        when 0 <= i <= s.len()
{
    if lit_at(s, i, seq![']']) {
        Some((Seq::<CandidateView>::empty(), i + 1))
    } else if lit_at(s, i, seq![',']) {
        match p_cand(s, i + 1) {
            Some((c, j)) => if i + 1 < j && j <= s.len() {
                match p_cands_rest(s, j) {
                    Some((cs, j2)) => Some((seq![c] + cs, j2)),
                    None => None,
                }
            } else {
                None
            },
            None => None,
        }
    } else {
        None
    }
}

/// Reads a candidate list.
pub open spec fn p_cands(s: Seq<char>, i: int) -> Option<(Seq<CandidateView>, int)> {
    if lit_at(s, i, "[]"@) {
        Some((Seq::<CandidateView>::empty(), i + "[]"@.len()))
    } else if lit_at(s, i, seq!['[']) {
        match p_cand(s, i + 1) {
            Some((c, j)) => if i + 1 < j && j <= s.len() {
                match p_cands_rest(s, j) {
                    Some((cs, j2)) => Some((seq![c] + cs, j2)),
                    None => None,
                }
            } else {
                None
            },
            None => None,
        }
    } else {
        None
    }
}

/// Reads an optional candidate list: its key literal and a list, or
/// nothing, which stands for the empty list.
pub open spec fn p_opt_cands(s: Seq<char>, i: int) -> Option<(Seq<CandidateView>, int)> {
    if lit_at(s, i, ",\"candidates\":"@) {
        match p_cands(s, i + ",\"candidates\":"@.len()) {
            Some((cs, j)) => Some((cs, j)),
            None => None,
        }
    } else {
        Some((Seq::<CandidateView>::empty(), i))
    }
}

/// Reads the catalog-A half of a record.
pub open spec fn p_mal(s: Seq<char>, i: int) -> Option<(MalInfoView, int)> {
    if !lit_at(s, i, "{\"id\":"@) {
        None
    } else {
        match p_u64(s, i + "{\"id\":"@.len()) {
            Some((id, j1)) => if !lit_at(s, j1, ",\"title\":"@) {
                None
            } else {
                match p_string(s, j1 + ",\"title\":"@.len()) {
                    Some((title, j2)) => match p_opt_str(s, j2, ",\"title_ja\":"@) {
                        Some((ja, j3)) => if !lit_at(s, j3, ",\"media_type\":"@) {
                            None
                        } else {
                            match p_media(s, j3 + ",\"media_type\":"@.len()) {
                                Some((mt, j4)) => if !lit_at(s, j4, ",\"rating\":"@) {
                                    None
                                } else {
                                    match p_rating(s, j4 + ",\"rating\":"@.len()) {
                                        Some((rt, j5)) => if lit_at(s, j5, seq!['}']) {
                                            Some(
                                                (
                                                    MalInfoView {
                                                        id: id,
                                                        title: title,
                                                        title_ja: ja,
                                                        media_type: mt,
                                                        rating: rt,
                                                    },
                                                    j5 + 1,
                                                ),
                                            )
                                        } else {
                                            None
                                        },
                                        None => None,
                                    }
                                },
                                None => None,
                            }
                        },
                        None => None,
                    },
                    None => None,
                }
            },
            None => None,
        }
    }
}

/// Reads one link record.
pub open spec fn p_item(s: Seq<char>, i: int) -> Option<(ItemView, int)> {
    if !lit_at(s, i, "{\"status\":"@) {
        None
    } else {
        match p_status(s, i + "{\"status\":"@.len()) {
            Some((st, j0)) => match p_opt_num(s, j0, ",\"bgm_id\":"@) {
                Some((bid, j1)) => match p_opt_str(s, j1, ",\"bgm_name\":"@) {
                    Some((bnm, j2)) => match p_opt_str(s, j2, ",\"bgm_name_cn\":"@) {
                        Some((bcn, j3)) => match p_opt_cands(s, j3) {
                            Some((cands, j4)) => if !lit_at(s, j4, ",\"mal\":"@) {
                                None
                            } else {
                                match p_mal(s, j4 + ",\"mal\":"@.len()) {
                                    Some((m, j5)) => if lit_at(s, j5, seq!['}']) {
                                        Some(
                                            (
                                                ItemView {
                                                    status: st,
                                                    bgm_id: bid,
                                                    bgm_name: bnm,
                                                    bgm_name_cn: bcn,
                                                    candidates: cands,
                                                    mal: m,
                                                },
                                                j5 + 1,
                                            ),
                                        )
                                    } else {
                                        None
                                    },
                                    None => None,
                                }
                            },
                            None => None,
                        },
                        None => None,
                    },
                    None => None,
                },
                None => None,
            },
            None => None,
        }
    }
}

/// Reads the continuation of the record list.
pub open spec fn p_items_rest(s: Seq<char>, i: int) -> Option<(Seq<ItemView>, int)>
    decreases s.len() - i
        when 0 <= i <= s.len()
{
    if lit_at(s, i, seq![']']) {
        Some((Seq::<ItemView>::empty(), i + 1))
    } else if lit_at(s, i, seq![',']) {
        match p_item(s, i + 1) {
            Some((it, j)) => if i + 1 < j && j <= s.len() {
                match p_items_rest(s, j) {
                    Some((its, j2)) => Some((seq![it] + its, j2)),
                    None => None,
                }
            } else {
                None
            },
            None => None,
        }
    } else {
        None
    }
}

/// Reads the record list.
pub open spec fn p_items(s: Seq<char>, i: int) -> Option<(Seq<ItemView>, int)> {
    if lit_at(s, i, "[]"@) {
        Some((Seq::<ItemView>::empty(), i + "[]"@.len()))
    } else if lit_at(s, i, seq!['[']) {
        match p_item(s, i + 1) {
            Some((it, j)) => if i + 1 < j && j <= s.len() {
                match p_items_rest(s, j) {
                    Some((its, j2)) => Some((seq![it] + its, j2)),
                    None => None,
                }
            } else {
                None
            },
            None => None,
        }
    } else {
        None
    }
}

/// Reads a whole persisted result set.
pub open spec fn p_data(s: Seq<char>, i: int) -> Option<(SeasonDataView, int)> {
    if !lit_at(s, i, "{\"season\":"@) {
        None
    } else {
        match p_string(s, i + "{\"season\":"@.len()) {
            Some((season, j1)) => if !lit_at(s, j1, ",\"update_time\":"@) {
                None
            } else {
                match p_string(s, j1 + ",\"update_time\":"@.len()) {
                    Some((ut, j2)) => if !lit_at(s, j2, ",\"items\":"@) {
                        None
                    } else {
                        match p_items(s, j2 + ",\"items\":"@.len()) {
                            Some((its, j3)) => if lit_at(s, j3, seq!['}']) {
                                Some(
                                    (
                                        SeasonDataView { season: season, update_time: ut, items: its },
                                        j3 + 1,
                                    ),
                                )
                            } else {
                                None
                            },
                            None => None,
                        }
                    },
                    None => None,
                }
            },
            None => None,
        }
    }
}

/// What a persisted text denotes: the result set it reads to, when the
/// whole text is exactly one written result set.
pub open spec fn data_of_json(s: Seq<char>) -> Option<SeasonDataView> {
    match p_data(s, 0) {
        Some((v, j)) => if j == s.len() {
            Some(v)
        } else {
            None
        },
        None => None,
    }
}

// ------------------------------------------------------------------
// Splitting a known suffix.
// ------------------------------------------------------------------

/// Where the text from `i` on begins with `a + b`, it begins with `a`,
/// and `b` follows.
proof fn lemma_peel(s: Seq<char>, i: int, a: Seq<char>, b: Seq<char>)
    requires
        0 <= i,
        i + a.len() + b.len() <= s.len(),
        s.subrange(i, i + a.len() + b.len()) == a + b,
    ensures
        s.subrange(i, i + a.len()) == a,
        s.subrange(i + a.len(), i + a.len() + b.len()) == b,
{
    let whole = s.subrange(i, i + a.len() + b.len());
    assert forall|k: int| 0 <= k < a.len() implies s.subrange(i, i + a.len())[k] == a[k] by {
        assert(whole[k] == (a + b)[k]);
    }
    assert(s.subrange(i, i + a.len()) =~= a);
    assert forall|k: int| 0 <= k < b.len() implies s.subrange(
        i + a.len(),
        i + a.len() + b.len(),
    )[k] == b[k] by {
        assert(whole[a.len() + k] == (a + b)[a.len() + k]);
    }
    assert(s.subrange(i + a.len(), i + a.len() + b.len()) =~= b);
}

/// Reading the written body of a string recovers it and stops at the
/// closing quote.
proof fn lemma_read_chars(s: Seq<char>, i: int, v: Seq<char>)
    requires
        0 <= i,
        i + esc_str(v).len() + 1 <= s.len(),
        s.subrange(i, i + esc_str(v).len()) == esc_str(v),
        s[i + esc_str(v).len()] == '"',
    ensures
        p_chars(s, i) == Some((v, i + esc_str(v).len())),
    decreases v.len(),
{
    if v.len() == 0 {
        assert(s[i] == '"');
    } else {
        let c = v[0];
        let rest = v.drop_first();
        assert(esc_str(v) == esc_char(c) + esc_str(rest));
        lemma_peel(s, i, esc_char(c), esc_str(rest));
        let i2 = i + esc_char(c).len();
        assert(s.subrange(i2, i2 + esc_str(rest).len()) =~= s.subrange(
            i + esc_char(c).len(),
            i + esc_char(c).len() + esc_str(rest).len(),
        ));
        lemma_read_chars(s, i2, rest);
        let head = s.subrange(i, i + esc_char(c).len());
        if c == '"' {
            assert(s[i] == head[0] && s[i + 1] == head[1]);
            assert(s[i] == '\\' && s[i + 1] == '"');
            assert(seq![s[i + 1]] + rest =~= v);
        } else if c == '\\' {
            assert(s[i] == head[0] && s[i + 1] == head[1]);
            assert(s[i] == '\\' && s[i + 1] == '\\');
            assert(seq![s[i + 1]] + rest =~= v);
        } else {
            assert(s[i] == head[0]);
            assert(s[i] == c);
            assert(s[i] != '"' && s[i] != '\\');
            assert(seq![s[i]] + rest =~= v);
        }
    }
}

/// Reading a written string recovers it.
proof fn lemma_read_string(s: Seq<char>, i: int, v: Seq<char>)
    requires
        0 <= i,
        i + pstr(v).len() <= s.len(),
        s.subrange(i, i + pstr(v).len()) == pstr(v),
    ensures
        p_string(s, i) == Some((v, i + pstr(v).len())),
{
    assert(pstr(v) =~= seq!['"'] + (esc_str(v) + seq!['"']));
    lemma_peel(s, i, seq!['"'], esc_str(v) + seq!['"']);
    assert(s[i] == s.subrange(i, i + 1)[0]);
    lemma_peel(s, i + 1, esc_str(v), seq!['"']);
    assert(s[i + 1 + esc_str(v).len()] == s.subrange(
        i + 1 + esc_str(v).len(),
        i + 1 + esc_str(v).len() + 1,
    )[0]);
    lemma_read_chars(s, i + 1, v);
}

/// Reading a written number recovers it, provided no digit follows it.
proof fn lemma_read_u64(s: Seq<char>, i: int, n: u64)
    requires
        0 <= i,
        i + dec_digits(n as nat).len() < s.len(),
        s.subrange(i, i + dec_digits(n as nat).len()) == dec_digits(n as nat),
        !is_digit(s[i + dec_digits(n as nat).len()]),
    ensures
        p_u64(s, i) == Some((n, i + dec_digits(n as nat).len())),
{
    let region = dec_digits(n as nat);
    let j = i + region.len();
    lemma_dec_digits_shape(n as nat);
    assert forall|k: int| i <= k < j implies is_digit(#[trigger] s[k]) by {
        assert(s[k] == s.subrange(i, j)[k - i]);
    }
    lemma_digits_end_run(s, i, j);
    assert(s[i] == region[0]);
    lemma_digits_val_of_dec(s, i, j, n as nat);
    if region.len() > 1 {
        assert(s[i] != '0');
    }
}

/// A run of digits followed by a non-digit scans to exactly its end.
proof fn lemma_digits_end_run(s: Seq<char>, i: int, j: int)
    requires
        0 <= i <= j < s.len(),
        forall|k: int| i <= k < j ==> is_digit(#[trigger] s[k]),
        !is_digit(s[j]),
    ensures
        digits_end(s, i) == j,
    decreases j - i,
{
    if i < j {
        lemma_digits_end_run(s, i + 1, j);
    }
}

/// Where the remaining text disagrees with a literal at one position,
/// the literal does not stand there.
proof fn lemma_not_lit(s: Seq<char>, i: int, rest: Seq<char>, bad: Seq<char>, k: int)
    requires
        0 <= i,
        i + rest.len() <= s.len(),
        s.subrange(i, i + rest.len()) == rest,
        0 <= k < rest.len(),
        k < bad.len(),
        rest[k] != bad[k],
    ensures
        !lit_at(s, i, bad),
{
    if lit_at(s, i, bad) {
        assert(s[i + k] == s.subrange(i, i + rest.len())[k]);
        assert(s[i + k] == s.subrange(i, i + bad.len())[k]);
    }
}

/// Reading a written status recovers it.
proof fn lemma_read_status(s: Seq<char>, i: int, st: ConfirmStatus)
    requires
        0 <= i,
        i + status_lit(st).len() <= s.len(),
        s.subrange(i, i + status_lit(st).len()) == status_lit(st),
    ensures
        p_status(s, i) == Some((st, i + status_lit(st).len())),
{
    reveal_strlit("\"unconfirmed\"");
    reveal_strlit("\"match\"");
    reveal_strlit("\"model\"");
    reveal_strlit("\"human\"");
    let rest = status_lit(st);
    assert(lit_at(s, i, rest));
    match st {
        ConfirmStatus::Unconfirmed => {},
        ConfirmStatus::Match => {
            lemma_not_lit(s, i, rest, "\"unconfirmed\""@, 1);
        },
        ConfirmStatus::Model => {
            lemma_not_lit(s, i, rest, "\"unconfirmed\""@, 1);
            lemma_not_lit(s, i, rest, "\"match\""@, 2);
        },
        ConfirmStatus::Human => {
            lemma_not_lit(s, i, rest, "\"unconfirmed\""@, 1);
            lemma_not_lit(s, i, rest, "\"match\""@, 1);
            lemma_not_lit(s, i, rest, "\"model\""@, 1);
        },
    }
}

/// Reading a written media kind recovers it.
proof fn lemma_read_media(s: Seq<char>, i: int, mt: MediaType)
    requires
        0 <= i,
        i + media_lit(mt).len() <= s.len(),
        s.subrange(i, i + media_lit(mt).len()) == media_lit(mt),
    ensures
        p_media(s, i) == Some((mt, i + media_lit(mt).len())),
{
    reveal_strlit("\"tv\"");
    reveal_strlit("\"ova\"");
    reveal_strlit("\"ona\"");
    reveal_strlit("\"movie\"");
    reveal_strlit("\"special\"");
    reveal_strlit("\"tv_special\"");
    let rest = media_lit(mt);
    assert(lit_at(s, i, rest));
    match mt {
        MediaType::Tv => {},
        MediaType::Ova => {
            lemma_not_lit(s, i, rest, "\"tv\""@, 1);
        },
        MediaType::Ona => {
            lemma_not_lit(s, i, rest, "\"tv\""@, 1);
            lemma_not_lit(s, i, rest, "\"ova\""@, 2);
        },
        MediaType::Movie => {
            lemma_not_lit(s, i, rest, "\"tv\""@, 1);
            lemma_not_lit(s, i, rest, "\"ova\""@, 1);
            lemma_not_lit(s, i, rest, "\"ona\""@, 1);
        },
        MediaType::Special => {
            lemma_not_lit(s, i, rest, "\"tv\""@, 1);
            lemma_not_lit(s, i, rest, "\"ova\""@, 1);
            lemma_not_lit(s, i, rest, "\"ona\""@, 1);
            lemma_not_lit(s, i, rest, "\"movie\""@, 1);
        },
        MediaType::TvSpecial => {
            lemma_not_lit(s, i, rest, "\"tv\""@, 3);
            lemma_not_lit(s, i, rest, "\"ova\""@, 1);
            lemma_not_lit(s, i, rest, "\"ona\""@, 1);
            lemma_not_lit(s, i, rest, "\"movie\""@, 1);
            lemma_not_lit(s, i, rest, "\"special\""@, 1);
        },
    }
}

/// Reading a written rating recovers it.
proof fn lemma_read_rating(s: Seq<char>, i: int, rt: Rating)
    requires
        0 <= i,
        i + rating_lit(rt).len() <= s.len(),
        s.subrange(i, i + rating_lit(rt).len()) == rating_lit(rt),
    ensures
        p_rating(s, i) == Some((rt, i + rating_lit(rt).len())),
{
    reveal_strlit("\"kids\"");
    reveal_strlit("\"general\"");
    reveal_strlit("\"r18\"");
    let rest = rating_lit(rt);
    assert(lit_at(s, i, rest));
    match rt {
        Rating::Kids => {},
        Rating::General => {
            lemma_not_lit(s, i, rest, "\"kids\""@, 1);
        },
        Rating::R18 => {
            lemma_not_lit(s, i, rest, "\"kids\""@, 1);
            lemma_not_lit(s, i, rest, "\"general\""@, 1);
        },
    }
}

/// Reading a written candidate recovers it.
proof fn lemma_read_cand(s: Seq<char>, i: int, c: CandidateView)
    requires
        0 <= i,
        i + print_cand(c).len() <= s.len(),
        s.subrange(i, i + print_cand(c).len()) == print_cand(c),
    ensures
        p_cand(s, i) == Some((c, i + print_cand(c).len())),
{
    reveal_strlit("{\"bgm_id\":");
    reveal_strlit(",\"bgm_name\":");
    reveal_strlit(",\"bgm_name_cn\":");
    let l1 = "{\"bgm_id\":"@;
    let num = dec_digits(c.bgm_id as nat);
    let l2 = ",\"bgm_name\":"@;
    let nm = pstr(c.bgm_name);
    let optcn: Seq<char> = match c.bgm_name_cn {
        Some(cn) => ",\"bgm_name_cn\":"@ + pstr(cn),
        None => Seq::<char>::empty(),
    };
    let tail1 = num + (l2 + (nm + (optcn + seq!['}'])));
    assert(print_cand(c) =~= l1 + tail1);
    lemma_peel(s, i, l1, tail1);
    assert(lit_at(s, i, l1));
    let i1 = i + l1.len();
    let tail2 = l2 + (nm + (optcn + seq!['}']));
    lemma_peel(s, i1, num, tail2);
    let i2 = i1 + num.len();
    assert(s[i2] == s.subrange(i2, i2 + tail2.len())[0]);
    assert(s[i2] == ',');
    assert(!is_digit(','));
    lemma_read_u64(s, i1, c.bgm_id);
    let tail3 = nm + (optcn + seq!['}']);
    lemma_peel(s, i2, l2, tail3);
    assert(lit_at(s, i2, l2));
    let i3 = i2 + l2.len();
    let tail4 = optcn + seq!['}'];
    lemma_peel(s, i3, nm, tail4);
    lemma_read_string(s, i3, c.bgm_name);
    let i4 = i3 + nm.len();
    assert(s.subrange(i4, i4 + tail4.len()) == tail4);
    match c.bgm_name_cn {
        Some(cn) => {
            let l3 = ",\"bgm_name_cn\":"@;
            let pcn = pstr(cn);
            let tail5 = pcn + seq!['}'];
            assert(tail4 =~= l3 + tail5);
            lemma_peel(s, i4, l3, tail5);
            assert(lit_at(s, i4, l3));
            let i5 = i4 + l3.len();
            lemma_peel(s, i5, pcn, seq!['}']);
            lemma_read_string(s, i5, cn);
            let i6 = i5 + pcn.len();
            assert(s[i6] == s.subrange(i6, i6 + 1)[0]);
            assert(lit_at(s, i6, seq!['}']));
        },
        None => {
            assert(tail4 =~= seq!['}']);
            lemma_not_lit(s, i4, tail4, ",\"bgm_name_cn\":"@, 0);
            assert(lit_at(s, i4, seq!['}']));
        },
    }
}

/// Reading the written continuation of a candidate list recovers it.
proof fn lemma_read_cands_rest(s: Seq<char>, i: int, cs: Seq<CandidateView>)
    requires
        0 <= i,
        i + print_cands_rest(cs).len() + 1 <= s.len(),
        s.subrange(i, i + print_cands_rest(cs).len() + 1) == print_cands_rest(cs) + seq![']'],
    ensures
        p_cands_rest(s, i) == Some((cs, i + print_cands_rest(cs).len() + 1)),
    decreases cs.len(),
{
    reveal_strlit("{\"bgm_id\":");
    let whole = print_cands_rest(cs) + seq![']'];
    if cs.len() == 0 {
        assert(s[i] == s.subrange(i, i + 1)[0]);
        assert(lit_at(s, i, seq![']']));
    } else {
        let c0 = cs[0];
        let rest = cs.drop_first();
        let tail1 = print_cand(c0) + (print_cands_rest(rest) + seq![']']);
        assert(whole =~= seq![','] + tail1);
        lemma_peel(s, i, seq![','], tail1);
        assert(s[i] == s.subrange(i, i + 1)[0]);
        assert(s[i] == ',');
        lemma_not_lit(s, i, seq![','], seq![']'], 0);
        assert(lit_at(s, i, seq![',']));
        let i1 = i + 1;
        lemma_peel(s, i1, print_cand(c0), print_cands_rest(rest) + seq![']']);
        lemma_read_cand(s, i1, c0);
        let j = i1 + print_cand(c0).len();
        assert(print_cand(c0).len() >= "{\"bgm_id\":"@.len());
        lemma_read_cands_rest(s, j, rest);
        assert(seq![c0] + rest =~= cs);
    }
}

/// Reading a written candidate list recovers it.
proof fn lemma_read_cands(s: Seq<char>, i: int, cs: Seq<CandidateView>)
    requires
        0 <= i,
        i + print_cands(cs).len() <= s.len(),
        s.subrange(i, i + print_cands(cs).len()) == print_cands(cs),
    ensures
        p_cands(s, i) == Some((cs, i + print_cands(cs).len())),
{
    reveal_strlit("[]");
    reveal_strlit("{\"bgm_id\":");
    if cs.len() == 0 {
        assert(lit_at(s, i, "[]"@));
    } else {
        let c0 = cs[0];
        let rest = cs.drop_first();
        let tail1 = print_cand(c0) + (print_cands_rest(rest) + seq![']']);
        assert(print_cands(cs) =~= seq!['['] + tail1);
        lemma_peel(s, i, seq!['['], tail1);
        assert(s[i] == s.subrange(i, i + 1)[0]);
        assert(s[i] == '[');
        let i1 = i + 1;
        lemma_peel(s, i1, print_cand(c0), print_cands_rest(rest) + seq![']']);
        // The empty-list form cannot stand here: the next character
        // opens a candidate object.
        assert(s[i1] == s.subrange(i1, i1 + print_cand(c0).len())[0]);
        assert(print_cand(c0)[0] == '{');
        if lit_at(s, i, "[]"@) {
            assert(s[i + 1] == s.subrange(i, i + 2)[1]);
            assert(false);
        }
        assert(lit_at(s, i, seq!['[']));
        lemma_read_cand(s, i1, c0);
        let j = i1 + print_cand(c0).len();
        assert(print_cand(c0).len() >= "{\"bgm_id\":"@.len());
        lemma_read_cands_rest(s, j, rest);
        assert(seq![c0] + rest =~= cs);
    }
}

/// Reading the written catalog-A half of a record recovers it.
#[verifier::rlimit(60)]
proof fn lemma_read_mal(s: Seq<char>, i: int, m: MalInfoView)
    requires
        0 <= i,
        i + print_mal(m).len() <= s.len(),
        s.subrange(i, i + print_mal(m).len()) == print_mal(m),
    ensures
        p_mal(s, i) == Some((m, i + print_mal(m).len())),
{
    reveal_strlit("{\"id\":");
    reveal_strlit(",\"title\":");
    reveal_strlit(",\"title_ja\":");
    reveal_strlit(",\"media_type\":");
    reveal_strlit(",\"rating\":");
    let l1 = "{\"id\":"@;
    let num = dec_digits(m.id as nat);
    let l2 = ",\"title\":"@;
    let pt = pstr(m.title);
    let optja: Seq<char> = match m.title_ja {
        Some(j) => ",\"title_ja\":"@ + pstr(j),
        None => Seq::<char>::empty(),
    };
    let l3 = ",\"media_type\":"@;
    let ml = media_lit(m.media_type);
    let l4 = ",\"rating\":"@;
    let rl = rating_lit(m.rating);
    let tail1 = num + (l2 + (pt + (optja + (l3 + (ml + (l4 + (rl + seq!['}'])))))));
    assert(print_mal(m) =~= l1 + tail1);
    lemma_peel(s, i, l1, tail1);
    assert(lit_at(s, i, l1));
    let i1 = i + l1.len();
    let tail2 = l2 + (pt + (optja + (l3 + (ml + (l4 + (rl + seq!['}']))))));
    lemma_peel(s, i1, num, tail2);
    let i2 = i1 + num.len();
    assert(s[i2] == s.subrange(i2, i2 + tail2.len())[0]);
    assert(s[i2] == ',');
    assert(!is_digit(','));
    lemma_read_u64(s, i1, m.id);
    let tail3 = pt + (optja + (l3 + (ml + (l4 + (rl + seq!['}'])))));
    lemma_peel(s, i2, l2, tail3);
    assert(lit_at(s, i2, l2));
    let i3 = i2 + l2.len();
    let tail4 = optja + (l3 + (ml + (l4 + (rl + seq!['}']))));
    lemma_peel(s, i3, pt, tail4);
    lemma_read_string(s, i3, m.title);
    let i4 = i3 + pt.len();
    let tail6 = ml + (l4 + (rl + seq!['}']));
    let i5: int = match m.title_ja {
        Some(j) => {
            let lja = ",\"title_ja\":"@;
            let pj = pstr(j);
            let tail5 = pj + (l3 + tail6);
            assert(tail4 =~= lja + tail5);
            lemma_peel(s, i4, lja, tail5);
            assert(lit_at(s, i4, lja));
            let ia = i4 + lja.len();
            lemma_peel(s, ia, pj, l3 + tail6);
            lemma_read_string(s, ia, j);
            ia + pj.len()
        },
        None => {
            assert(tail4 =~= l3 + tail6);
            lemma_not_lit(s, i4, tail4, ",\"title_ja\":"@, 2);
            i4
        },
    };
    assert(s.subrange(i5, i5 + (l3 + tail6).len()) == l3 + tail6);
    lemma_peel(s, i5, l3, tail6);
    assert(lit_at(s, i5, l3));
    let i6 = i5 + l3.len();
    let tail7 = l4 + (rl + seq!['}']);
    lemma_peel(s, i6, ml, tail7);
    lemma_read_media(s, i6, m.media_type);
    let i7 = i6 + ml.len();
    let tail8 = rl + seq!['}'];
    lemma_peel(s, i7, l4, tail8);
    assert(lit_at(s, i7, l4));
    let i8 = i7 + l4.len();
    lemma_peel(s, i8, rl, seq!['}']);
    lemma_read_rating(s, i8, m.rating);
    let i9 = i8 + rl.len();
    assert(s[i9] == s.subrange(i9, i9 + 1)[0]);
    assert(lit_at(s, i9, seq!['}']));
}

/// Reading the four optional fields of a record recovers them.
#[verifier::rlimit(100)]
#[verifier::spinoff_prover]
proof fn lemma_read_item_opts(s: Seq<char>, j0: int, it: ItemView, taile: Seq<char>)
    requires
        0 <= j0,
        j0 + seg_bgm_id(it).len() + seg_bgm_name(it).len() + seg_bgm_name_cn(it).len()
            + seg_cands(it).len() + taile.len() <= s.len(),
        s.subrange(
            j0,
            j0 + seg_bgm_id(it).len() + seg_bgm_name(it).len() + seg_bgm_name_cn(it).len()
                + seg_cands(it).len() + taile.len(),
        ) == seg_bgm_id(it) + (seg_bgm_name(it) + (seg_bgm_name_cn(it) + (seg_cands(it) + taile))),
        taile.len() >= 3,
        taile[0] == ',',
        taile[1] == '"',
        taile[2] == 'm',
    ensures
        ({
            let j1 = j0 + seg_bgm_id(it).len();
            let j2 = j1 + seg_bgm_name(it).len();
            let j3 = j2 + seg_bgm_name_cn(it).len();
            let j4 = j3 + seg_cands(it).len();
            &&& p_opt_num(s, j0, ",\"bgm_id\":"@) == Some((it.bgm_id, j1))
            &&& p_opt_str(s, j1, ",\"bgm_name\":"@) == Some((it.bgm_name, j2))
            &&& p_opt_str(s, j2, ",\"bgm_name_cn\":"@) == Some((it.bgm_name_cn, j3))
            &&& p_opt_cands(s, j3) == Some((it.candidates, j4))
            &&& s.subrange(j4, j4 + taile.len()) == taile
        }),
{
    reveal_strlit(",\"bgm_id\":");
    reveal_strlit(",\"bgm_name\":");
    reveal_strlit(",\"bgm_name_cn\":");
    reveal_strlit(",\"candidates\":");
    let sa = seg_bgm_id(it);
    let sb = seg_bgm_name(it);
    let sc = seg_bgm_name_cn(it);
    let sd = seg_cands(it);
    let tail2 = sa + (sb + (sc + (sd + taile)));
    let tail3 = sb + (sc + (sd + taile));
    // The resolved-identifier field.
    let j1: int = match it.bgm_id {
        Some(id) => {
            let lid = ",\"bgm_id\":"@;
            let num = dec_digits(id as nat);
            assert(sa =~= lid + num);
            assert(tail2 =~= lid + (num + tail3));
            lemma_peel(s, j0, lid, num + tail3);
            assert(lit_at(s, j0, lid));
            let ja = j0 + lid.len();
            lemma_peel(s, ja, num, tail3);
            let jb = ja + num.len();
            assert(s[jb] == s.subrange(jb, jb + tail3.len())[0]);
            assert(tail3[0] == ',') by {
                if it.bgm_name is Some {
                    assert(tail3[0] == ",\"bgm_name\":"@[0]);
                } else if it.bgm_name_cn is Some {
                    assert(tail3[0] == ",\"bgm_name_cn\":"@[0]);
                } else if it.candidates.len() > 0 {
                    assert(tail3[0] == ",\"candidates\":"@[0]);
                } else {
                    assert(tail3[0] == taile[0]);
                }
            }
            assert(!is_digit(','));
            lemma_read_u64(s, ja, id);
            jb
        },
        None => {
            assert(sa =~= Seq::<char>::empty());
            assert(tail2 =~= tail3);
            assert(s.subrange(j0, j0 + tail3.len()) == tail3);
            if it.bgm_name is Some {
                assert(tail3[6] == ",\"bgm_name\":"@[6]);
                lemma_not_lit(s, j0, tail3, ",\"bgm_id\":"@, 6);
            } else if it.bgm_name_cn is Some {
                assert(tail3[6] == ",\"bgm_name_cn\":"@[6]);
                lemma_not_lit(s, j0, tail3, ",\"bgm_id\":"@, 6);
            } else if it.candidates.len() > 0 {
                assert(tail3[2] == ",\"candidates\":"@[2]);
                lemma_not_lit(s, j0, tail3, ",\"bgm_id\":"@, 2);
            } else {
                assert(tail3[2] == taile[2]);
                lemma_not_lit(s, j0, tail3, ",\"bgm_id\":"@, 2);
            }
            j0
        },
    };
    assert(s.subrange(j1, j1 + tail3.len()) == tail3);
    // The resolved-name field.
    let tail4 = sc + (sd + taile);
    let j2: int = match it.bgm_name {
        Some(nm) => {
            let lnm = ",\"bgm_name\":"@;
            let pn = pstr(nm);
            assert(sb =~= lnm + pn);
            assert(tail3 =~= lnm + (pn + tail4));
            lemma_peel(s, j1, lnm, pn + tail4);
            assert(lit_at(s, j1, lnm));
            let ja = j1 + lnm.len();
            lemma_peel(s, ja, pn, tail4);
            lemma_read_string(s, ja, nm);
            ja + pn.len()
        },
        None => {
            assert(sb =~= Seq::<char>::empty());
            assert(tail3 =~= tail4);
            if it.bgm_name_cn is Some {
                assert(tail4[10] == ",\"bgm_name_cn\":"@[10]);
                lemma_not_lit(s, j1, tail4, ",\"bgm_name\":"@, 10);
            } else if it.candidates.len() > 0 {
                assert(tail4[2] == ",\"candidates\":"@[2]);
                lemma_not_lit(s, j1, tail4, ",\"bgm_name\":"@, 2);
            } else {
                assert(tail4[2] == taile[2]);
                lemma_not_lit(s, j1, tail4, ",\"bgm_name\":"@, 2);
            }
            j1
        },
    };
    assert(s.subrange(j2, j2 + tail4.len()) == tail4);
    // The localized-name field.
    let tail5 = sd + taile;
    let j3: int = match it.bgm_name_cn {
        Some(cn) => {
            let lcn = ",\"bgm_name_cn\":"@;
            let pc = pstr(cn);
            assert(sc =~= lcn + pc);
            assert(tail4 =~= lcn + (pc + tail5));
            lemma_peel(s, j2, lcn, pc + tail5);
            assert(lit_at(s, j2, lcn));
            let ja = j2 + lcn.len();
            lemma_peel(s, ja, pc, tail5);
            lemma_read_string(s, ja, cn);
            ja + pc.len()
        },
        None => {
            assert(sc =~= Seq::<char>::empty());
            assert(tail4 =~= tail5);
            if it.candidates.len() > 0 {
                assert(tail5[2] == ",\"candidates\":"@[2]);
                lemma_not_lit(s, j2, tail5, ",\"bgm_name_cn\":"@, 2);
            } else {
                assert(tail5[2] == taile[2]);
                lemma_not_lit(s, j2, tail5, ",\"bgm_name_cn\":"@, 2);
            }
            j2
        },
    };
    assert(s.subrange(j3, j3 + tail5.len()) == tail5);
    // The candidate list.
    let j4: int = if it.candidates.len() > 0 {
        let lca = ",\"candidates\":"@;
        let pc = print_cands(it.candidates);
        assert(sd =~= lca + pc);
        assert(tail5 =~= lca + (pc + taile));
        lemma_peel(s, j3, lca, pc + taile);
        assert(lit_at(s, j3, lca));
        let ja = j3 + lca.len();
        lemma_peel(s, ja, pc, taile);
        lemma_read_cands(s, ja, it.candidates);
        ja + pc.len()
    } else {
        assert(sd =~= Seq::<char>::empty());
        assert(tail5 =~= taile);
        assert(taile[2] == taile[2]);
        lemma_not_lit(s, j3, taile, ",\"candidates\":"@, 2);
        j3
    };
    assert(s.subrange(j4, j4 + taile.len()) == taile);
}

/// Reading one written record recovers it.
#[verifier::rlimit(100)]
#[verifier::spinoff_prover]
proof fn lemma_read_item(s: Seq<char>, i: int, it: ItemView)
    requires
        0 <= i,
        i + print_item(it).len() <= s.len(),
        s.subrange(i, i + print_item(it).len()) == print_item(it),
    ensures
        p_item(s, i) == Some((it, i + print_item(it).len())),
{
    reveal_strlit("{\"status\":");
    reveal_strlit(",\"mal\":");
    let l0 = "{\"status\":"@;
    let sl = status_lit(it.status);
    let sa = seg_bgm_id(it);
    let sb = seg_bgm_name(it);
    let sc = seg_bgm_name_cn(it);
    let sd = seg_cands(it);
    let lm = ",\"mal\":"@;
    let pm = print_mal(it.mal);
    let taile = lm + (pm + seq!['}']);
    let tail1 = sl + (sa + (sb + (sc + (sd + taile))));
    assert(print_item(it) =~= l0 + tail1);
    lemma_peel(s, i, l0, tail1);
    assert(lit_at(s, i, l0));
    let i0 = i + l0.len();
    let tail2 = sa + (sb + (sc + (sd + taile)));
    lemma_peel(s, i0, sl, tail2);
    lemma_read_status(s, i0, it.status);
    let j0 = i0 + sl.len();
    assert(taile[0] == lm[0] && taile[1] == lm[1] && taile[2] == lm[2]);
    lemma_read_item_opts(s, j0, it, taile);
    let j1 = j0 + sa.len();
    let j2 = j1 + sb.len();
    let j3 = j2 + sc.len();
    let j4 = j3 + sd.len();
    lemma_peel(s, j4, lm, pm + seq!['}']);
    assert(lit_at(s, j4, lm));
    let j5 = j4 + lm.len();
    lemma_peel(s, j5, pm, seq!['}']);
    lemma_read_mal(s, j5, it.mal);
    let j6 = j5 + pm.len();
    assert(s[j6] == s.subrange(j6, j6 + 1)[0]);
    assert(lit_at(s, j6, seq!['}']));
    assert(p_status(s, i0) == Some((it.status, j0)));
    assert(p_mal(s, j4 + ",\"mal\":"@.len()) == Some((it.mal, j6)));
    assert(j6 + 1 == i + print_item(it).len());
}

/// Reading the written continuation of the record list recovers it.
#[verifier::rlimit(80)]
#[verifier::spinoff_prover]
proof fn lemma_read_items_rest(s: Seq<char>, i: int, its: Seq<ItemView>)
    requires
        0 <= i,
        i + print_items_rest(its).len() + 1 <= s.len(),
        s.subrange(i, i + print_items_rest(its).len() + 1) == print_items_rest(its) + seq![']'],
    ensures
        p_items_rest(s, i) == Some((its, i + print_items_rest(its).len() + 1)),
    decreases its.len(),
{
    reveal_strlit("{\"status\":");
    let whole = print_items_rest(its) + seq![']'];
    if its.len() == 0 {
        assert(s[i] == s.subrange(i, i + 1)[0]);
        assert(lit_at(s, i, seq![']']));
    } else {
        let it0 = its[0];
        let rest = its.drop_first();
        let tail1 = print_item(it0) + (print_items_rest(rest) + seq![']']);
        assert(whole =~= seq![','] + tail1);
        lemma_peel(s, i, seq![','], tail1);
        assert(s[i] == s.subrange(i, i + 1)[0]);
        assert(s[i] == ',');
        lemma_not_lit(s, i, seq![','], seq![']'], 0);
        assert(lit_at(s, i, seq![',']));
        let i1 = i + 1;
        lemma_peel(s, i1, print_item(it0), print_items_rest(rest) + seq![']']);
        lemma_read_item(s, i1, it0);
        let j = i1 + print_item(it0).len();
        assert(print_item(it0).len() >= "{\"status\":"@.len());
        lemma_read_items_rest(s, j, rest);
        assert(seq![it0] + rest =~= its);
    }
}

/// Reading a written record list recovers it.
#[verifier::rlimit(100)]
#[verifier::spinoff_prover]
proof fn lemma_read_items(s: Seq<char>, i: int, its: Seq<ItemView>)
    requires
        0 <= i,
        i + print_items(its).len() <= s.len(),
        s.subrange(i, i + print_items(its).len()) == print_items(its),
    ensures
        p_items(s, i) == Some((its, i + print_items(its).len())),
{
    reveal_strlit("[]");
    reveal_strlit("{\"status\":");
    if its.len() == 0 {
        assert(lit_at(s, i, "[]"@));
    } else {
        let it0 = its[0];
        let rest = its.drop_first();
        let tail1 = print_item(it0) + (print_items_rest(rest) + seq![']']);
        assert(print_items(its) =~= seq!['['] + tail1);
        lemma_peel(s, i, seq!['['], tail1);
        assert(s[i] == s.subrange(i, i + 1)[0]);
        assert(s[i] == '[');
        let i1 = i + 1;
        lemma_peel(s, i1, print_item(it0), print_items_rest(rest) + seq![']']);
        assert(s[i1] == s.subrange(i1, i1 + print_item(it0).len())[0]);
        assert(print_item(it0)[0] == '{');
        if lit_at(s, i, "[]"@) {
            assert(s[i + 1] == s.subrange(i, i + 2)[1]);
            assert(false);
        }
        assert(lit_at(s, i, seq!['[']));
        lemma_read_item(s, i1, it0);
        let j = i1 + print_item(it0).len();
        assert(print_item(it0).len() >= "{\"status\":"@.len());
        lemma_read_items_rest(s, j, rest);
        assert(seq![it0] + rest =~= its);
    }
}

/// Reading a whole written result set recovers it.
#[verifier::rlimit(100)]
#[verifier::spinoff_prover]
proof fn lemma_read_data(s: Seq<char>, i: int, v: SeasonDataView)
    requires
        0 <= i,
        i + json_of(v).len() <= s.len(),
        s.subrange(i, i + json_of(v).len()) == json_of(v),
    ensures
        p_data(s, i) == Some((v, i + json_of(v).len())),
{
    reveal_strlit("{\"season\":");
    reveal_strlit(",\"update_time\":");
    reveal_strlit(",\"items\":");
    let l1 = "{\"season\":"@;
    let ps = pstr(v.season);
    let l2 = ",\"update_time\":"@;
    let pu = pstr(v.update_time);
    let l3 = ",\"items\":"@;
    let pi = print_items(v.items);
    let tail1 = ps + (l2 + (pu + (l3 + (pi + seq!['}']))));
    assert(json_of(v) =~= l1 + tail1);
    lemma_peel(s, i, l1, tail1);
    assert(lit_at(s, i, l1));
    let i1 = i + l1.len();
    let tail2 = l2 + (pu + (l3 + (pi + seq!['}'])));
    lemma_peel(s, i1, ps, tail2);
    lemma_read_string(s, i1, v.season);
    let i2 = i1 + ps.len();
    let tail3 = pu + (l3 + (pi + seq!['}']));
    lemma_peel(s, i2, l2, tail3);
    assert(lit_at(s, i2, l2));
    let i3 = i2 + l2.len();
    let tail4 = l3 + (pi + seq!['}']);
    lemma_peel(s, i3, pu, tail4);
    lemma_read_string(s, i3, v.update_time);
    let i4 = i3 + pu.len();
    let tail5 = pi + seq!['}'];
    lemma_peel(s, i4, l3, tail5);
    assert(lit_at(s, i4, l3));
    let i5 = i4 + l3.len();
    lemma_peel(s, i5, pi, seq!['}']);
    lemma_read_items(s, i5, v.items);
    let i6 = i5 + pi.len();
    assert(s[i6] == s.subrange(i6, i6 + 1)[0]);
    assert(lit_at(s, i6, seq!['}']));
}

/// Round trip: a persisted result set reads back to the very value it
/// was written from — field for field, an absent candidate list as
/// the empty one, absent optional fields as `None`.
#[verifier::rlimit(60)]
pub proof fn lemma_json_round_trip(v: SeasonDataView)
    ensures
        data_of_json(json_of(v)) == Some(v),
{
    let s = json_of(v);
    assert(s.subrange(0, s.len() as int) =~= s);
    lemma_read_data(s, 0, v);
}

// ------------------------------------------------------------------
// Absence: what counts as no prior state.
// ------------------------------------------------------------------

/// A stored text that stands for "no prior state": nothing but blanks,
/// or the empty object between blanks.
pub open spec fn absent_content(s: Seq<char>) -> bool {
    let a = ws_end(s, 0);
    a == s.len() || (a + 2 <= s.len() && s[a] == '{' && s[a + 1] == '}' && ws_end(s, a + 2)
        == s.len())
}

/// Whether a stored text stands for "no prior state".
pub fn is_absent_content(s: &str) -> (r: bool)
    ensures
        r == absent_content(s@),
{
    let n = s.unicode_len();
    let a = skip_ws(s, 0, n);
    if a == n {
        return true;
    }
    if n - a >= 2 && s.get_char(a) == '{' && s.get_char(a + 1) == '}' && skip_ws(s, a + 2, n)
        == n {
        return true;
    }
    false
}

/// A written result set is never mistaken for absent state.
pub proof fn lemma_written_not_absent(v: SeasonDataView)
    ensures
        !absent_content(json_of(v)),
{
    reveal_strlit("{\"season\":");
    let s = json_of(v);
    let l = "{\"season\":"@;
    assert(s.subrange(0, l.len() as int) =~= l);
    assert(s[0] == s.subrange(0, l.len() as int)[0]);
    assert(s[1] == s.subrange(0, l.len() as int)[1]);
    assert(ws_end(s, 0) == 0);
}

// ------------------------------------------------------------------
// The executable writer.
// ------------------------------------------------------------------

/// Relies on `String::push`: appends exactly this character.
#[verifier::external_body]
fn push_char(out: &mut String, c: char)
    ensures
        final(out)@ == old(out)@.push(c),
{
    out.push(c);
}

/// Writing one more character extends the escaped body by its escape.
proof fn lemma_esc_push(a: Seq<char>, c: char)
    ensures
        esc_str(a.push(c)) == esc_str(a) + esc_char(c),
    decreases a.len(),
{
    reveal_with_fuel(esc_str, 3);
    if a.len() == 0 {
        assert(a.push(c) =~= seq![c]);
        assert(a.push(c)[0] == c);
        assert(seq![c].drop_first() =~= Seq::<char>::empty());
        assert(esc_str(a.push(c)) =~= esc_char(c));
        assert(esc_str(a) + esc_char(c) =~= esc_char(c));
    } else {
        assert(a.push(c).drop_first() =~= a.drop_first().push(c));
        lemma_esc_push(a.drop_first(), c);
        assert(esc_str(a.push(c)) =~= esc_str(a) + esc_char(c));
    }
}

/// Appends a value as a quoted, escaped string.
fn w_string(out: &mut String, v: &str)
    ensures
        final(out)@ == old(out)@ + pstr(v@),
{
    let n = v.unicode_len();
    push_char(out, '"');
    let ghost base = out@;
    let mut i: usize = 0;
    while i < n
        invariant
            i <= n,
            n as nat == v@.len(),
            out@ == base + esc_str(v@.take(i as int)),
        decreases n - i,
    {
        let c = v.get_char(i);
        if c == '"' {
            push_char(out, '\\');
            push_char(out, '"');
        } else if c == '\\' {
            push_char(out, '\\');
            push_char(out, '\\');
        } else {
            push_char(out, c);
        }
        proof {
            assert(v@.take(i + 1).drop_last() =~= v@.take(i as int));
            assert(v@.take(i + 1) =~= v@.take(i as int).push(v@[i as int]));
            lemma_esc_push(v@.take(i as int), v@[i as int]);
            assert(out@ =~= base + esc_str(v@.take(i + 1)));
        }
        i = i + 1;
    }
    push_char(out, '"');
    proof {
        assert(v@.take(n as int) =~= v@);
        assert(out@ =~= old(out)@ + pstr(v@));
    }
}

/// Appends a number in decimal.
fn w_u64(out: &mut String, n: u64)
    ensures
        final(out)@ == old(out)@ + dec_digits(n as nat),
{
    let digits = u64_to_string(n);
    out.append(digits.as_str());
}

/// Appends the written name of a status.
fn w_status(out: &mut String, st: &ConfirmStatus)
    ensures
        final(out)@ == old(out)@ + status_lit(*st),
{
    match st {
        ConfirmStatus::Unconfirmed => out.append("\"unconfirmed\""),
        ConfirmStatus::Match => out.append("\"match\""),
        ConfirmStatus::Model => out.append("\"model\""),
        ConfirmStatus::Human => out.append("\"human\""),
    }
}

/// Appends the written name of a media kind.
fn w_media(out: &mut String, mt: &MediaType)
    ensures
        final(out)@ == old(out)@ + media_lit(*mt),
{
    match mt {
        MediaType::Tv => out.append("\"tv\""),
        MediaType::Ova => out.append("\"ova\""),
        MediaType::Ona => out.append("\"ona\""),
        MediaType::Movie => out.append("\"movie\""),
        MediaType::Special => out.append("\"special\""),
        MediaType::TvSpecial => out.append("\"tv_special\""),
    }
}

/// Appends the written name of a rating.
fn w_rating(out: &mut String, rt: &Rating)
    ensures
        final(out)@ == old(out)@ + rating_lit(*rt),
{
    match rt {
        Rating::Kids => out.append("\"kids\""),
        Rating::General => out.append("\"general\""),
        Rating::R18 => out.append("\"r18\""),
    }
}

/// Appends one written candidate.
fn w_cand(out: &mut String, c: &BgmCandidate)
    ensures
        final(out)@ == old(out)@ + print_cand(c.deep_view()),
{
    out.append("{\"bgm_id\":");
    w_u64(out, c.bgm_id);
    out.append(",\"bgm_name\":");
    w_string(out, c.bgm_name.as_str());
    match &c.bgm_name_cn {
        Some(cn) => {
            out.append(",\"bgm_name_cn\":");
            w_string(out, cn.as_str());
        },
        None => {},
    }
    out.append("}");
    proof {
        reveal_strlit("}");
        assert("}"@ =~= seq!['}']);
        assert(out@ =~= old(out)@ + print_cand(c.deep_view()));
    }
}

/// One more element extends the written list continuation.
proof fn lemma_cands_rest_push(a: Seq<CandidateView>, x: CandidateView)
    ensures
        print_cands_rest(a.push(x)) == print_cands_rest(a) + (seq![','] + print_cand(x)),
    decreases a.len(),
{
    reveal_with_fuel(print_cands_rest, 3);
    if a.len() == 0 {
        assert(a.push(x)[0] == x);
        assert(a.push(x).drop_first() =~= Seq::<CandidateView>::empty());
        assert(print_cands_rest(a.push(x)) =~= print_cands_rest(a) + (seq![','] + print_cand(x)));
    } else {
        assert(a.push(x)[0] == a[0]);
        assert(a.push(x).drop_first() =~= a.drop_first().push(x));
        lemma_cands_rest_push(a.drop_first(), x);
        assert(print_cands_rest(a.push(x)) =~= print_cands_rest(a) + (seq![','] + print_cand(x)));
    }
}

/// Appends a written candidate list.
fn w_cands(out: &mut String, cs: &Vec<BgmCandidate>)
    ensures
        final(out)@ == old(out)@ + print_cands(cs.deep_view()),
{
    if cs.len() == 0 {
        out.append("[]");
        return ;
    }
    out.append("[");
    w_cand(out, &cs[0]);
    let ghost base = out@;
    let mut k: usize = 1;
    while k < cs.len()
        invariant
            1 <= k <= cs@.len(),
            out@ == base + print_cands_rest(cs.deep_view().subrange(1, k as int)),
        decreases cs@.len() - k,
    {
        out.append(",");
        w_cand(out, &cs[k]);
        proof {
            reveal_strlit(",");
            let dv = cs.deep_view();
            assert(dv.subrange(1, k + 1) =~= dv.subrange(1, k as int).push(dv[k as int]));
            lemma_cands_rest_push(dv.subrange(1, k as int), dv[k as int]);
            assert(","@ =~= seq![',']);
            assert(out@ =~= base + print_cands_rest(dv.subrange(1, k + 1)));
        }
        k = k + 1;
    }
    out.append("]");
    proof {
        reveal_strlit("[");
        reveal_strlit("]");
        let dv = cs.deep_view();
        assert(dv.subrange(1, dv.len() as int) =~= dv.drop_first());
        assert("["@ =~= seq!['[']);
        assert("]"@ =~= seq![']']);
        assert(out@ =~= old(out)@ + print_cands(dv));
    }
}

/// Appends the written catalog-A half of a record.
fn w_mal(out: &mut String, m: &MalInfo)
    ensures
        final(out)@ == old(out)@ + print_mal(m.deep_view()),
{
    out.append("{\"id\":");
    w_u64(out, m.id);
    out.append(",\"title\":");
    w_string(out, m.title.as_str());
    match &m.title_ja {
        Some(j) => {
            out.append(",\"title_ja\":");
            w_string(out, j.as_str());
        },
        None => {},
    }
    out.append(",\"media_type\":");
    w_media(out, &m.media_type);
    out.append(",\"rating\":");
    w_rating(out, &m.rating);
    out.append("}");
    proof {
        reveal_strlit("}");
        assert("}"@ =~= seq!['}']);
        assert(out@ =~= old(out)@ + print_mal(m.deep_view()));
    }
}

/// Appends one written record.
#[verifier::rlimit(100)]
#[verifier::spinoff_prover]
fn w_item(out: &mut String, it: &SeasonItem)
    ensures
        final(out)@ == old(out)@ + print_item(it.deep_view()),
{
    let ghost g0 = out@;
    let ghost iv = it.deep_view();
    out.append("{\"status\":");
    w_status(out, &it.status);
    let ghost p1 = "{\"status\":"@ + status_lit(iv.status);
    proof {
        vstd::seq_lib::lemma_concat_associative(g0, "{\"status\":"@, status_lit(iv.status));
    }
    match &it.bgm_id {
        Some(id) => {
            out.append(",\"bgm_id\":");
            w_u64(out, *id);
            proof {
                vstd::seq_lib::lemma_concat_associative(g0, p1, ",\"bgm_id\":"@);
                vstd::seq_lib::lemma_concat_associative(
                    g0,
                    p1 + ",\"bgm_id\":"@,
                    dec_digits(*id as nat),
                );
                vstd::seq_lib::lemma_concat_associative(p1, ",\"bgm_id\":"@, dec_digits(*id as nat));
            }
        },
        None => {
            proof {
                assert(p1 + seg_bgm_id(iv) =~= p1);
            }
        },
    }
    let ghost p2 = p1 + seg_bgm_id(iv);
    assert(out@ == g0 + p2);
    match &it.bgm_name {
        Some(nm) => {
            out.append(",\"bgm_name\":");
            w_string(out, nm.as_str());
            proof {
                vstd::seq_lib::lemma_concat_associative(g0, p2, ",\"bgm_name\":"@);
                vstd::seq_lib::lemma_concat_associative(
                    g0,
                    p2 + ",\"bgm_name\":"@,
                    pstr(nm@),
                );
                vstd::seq_lib::lemma_concat_associative(p2, ",\"bgm_name\":"@, pstr(nm@));
            }
        },
        None => {
            proof {
                assert(p2 + seg_bgm_name(iv) =~= p2);
            }
        },
    }
    let ghost p3 = p2 + seg_bgm_name(iv);
    assert(out@ == g0 + p3);
    match &it.bgm_name_cn {
        Some(cn) => {
            out.append(",\"bgm_name_cn\":");
            w_string(out, cn.as_str());
            proof {
                vstd::seq_lib::lemma_concat_associative(g0, p3, ",\"bgm_name_cn\":"@);
                vstd::seq_lib::lemma_concat_associative(
                    g0,
                    p3 + ",\"bgm_name_cn\":"@,
                    pstr(cn@),
                );
                vstd::seq_lib::lemma_concat_associative(p3, ",\"bgm_name_cn\":"@, pstr(cn@));
            }
        },
        None => {
            proof {
                assert(p3 + seg_bgm_name_cn(iv) =~= p3);
            }
        },
    }
    let ghost p4 = p3 + seg_bgm_name_cn(iv);
    assert(out@ == g0 + p4);
    if it.candidates.len() > 0 {
        out.append(",\"candidates\":");
        w_cands(out, &it.candidates);
        proof {
            vstd::seq_lib::lemma_concat_associative(g0, p4, ",\"candidates\":"@);
            vstd::seq_lib::lemma_concat_associative(
                g0,
                p4 + ",\"candidates\":"@,
                print_cands(iv.candidates),
            );
            vstd::seq_lib::lemma_concat_associative(
                p4,
                ",\"candidates\":"@,
                print_cands(iv.candidates),
            );
        }
    } else {
        proof {
            assert(p4 + seg_cands(iv) =~= p4);
        }
    }
    let ghost p5 = p4 + seg_cands(iv);
    assert(out@ == g0 + p5);
    out.append(",\"mal\":");
    w_mal(out, &it.mal);
    out.append("}");
    proof {
        reveal_strlit("}");
        assert("}"@ =~= seq!['}']);
        vstd::seq_lib::lemma_concat_associative(g0, p5, ",\"mal\":"@);
        vstd::seq_lib::lemma_concat_associative(g0, p5 + ",\"mal\":"@, print_mal(iv.mal));
        vstd::seq_lib::lemma_concat_associative(
            g0,
            p5 + ",\"mal\":"@ + print_mal(iv.mal),
            seq!['}'],
        );
        assert(out@ == g0 + (p5 + ",\"mal\":"@ + print_mal(iv.mal) + seq!['}']));
        assert(p5 + ",\"mal\":"@ + print_mal(iv.mal) + seq!['}'] == print_item(iv));
    }
}

/// One more record extends the written list continuation.
proof fn lemma_items_rest_push(a: Seq<ItemView>, x: ItemView)
    ensures
        print_items_rest(a.push(x)) == print_items_rest(a) + (seq![','] + print_item(x)),
    decreases a.len(),
{
    reveal_with_fuel(print_items_rest, 3);
    if a.len() == 0 {
        assert(a.push(x)[0] == x);
        assert(a.push(x).drop_first() =~= Seq::<ItemView>::empty());
        assert(print_items_rest(a) + (seq![','] + print_item(x)) =~= seq![','] + print_item(x)
            + print_items_rest(a.push(x).drop_first()));
    } else {
        assert(a.push(x)[0] == a[0]);
        assert(a.push(x).drop_first() =~= a.drop_first().push(x));
        lemma_items_rest_push(a.drop_first(), x);
        vstd::seq_lib::lemma_concat_associative(
            seq![','] + print_item(a[0]),
            print_items_rest(a.drop_first()),
            seq![','] + print_item(x),
        );
    }
}

/// Appends the written record list.
fn w_items(out: &mut String, its: &Vec<SeasonItem>)
    ensures
        final(out)@ == old(out)@ + print_items(its.deep_view()),
{
    if its.len() == 0 {
        out.append("[]");
        return ;
    }
    out.append("[");
    w_item(out, &its[0]);
    let ghost base = out@;
    let mut k: usize = 1;
    while k < its.len()
        invariant
            1 <= k <= its@.len(),
            out@ == base + print_items_rest(its.deep_view().subrange(1, k as int)),
        decreases its@.len() - k,
    {
        out.append(",");
        w_item(out, &its[k]);
        proof {
            reveal_strlit(",");
            let dv = its.deep_view();
            assert(dv.subrange(1, k + 1) =~= dv.subrange(1, k as int).push(dv[k as int]));
            lemma_items_rest_push(dv.subrange(1, k as int), dv[k as int]);
            assert(","@ =~= seq![',']);
            assert(out@ =~= base + print_items_rest(dv.subrange(1, k + 1)));
        }
        k = k + 1;
    }
    out.append("]");
    proof {
        reveal_strlit("[");
        reveal_strlit("]");
        let dv = its.deep_view();
        assert(dv.subrange(1, dv.len() as int) =~= dv.drop_first());
        assert("["@ =~= seq!['[']);
        assert("]"@ =~= seq![']']);
        assert(out@ =~= old(out)@ + print_items(dv));
    }
}

/// Renders a result set in its persisted form.
pub fn to_json(d: &SeasonData) -> (r: String)
    ensures
        r@ == json_of(d.deep_view()),
{
    let mut out = String::new();
    out.append("{\"season\":");
    w_string(&mut out, d.season.as_str());
    out.append(",\"update_time\":");
    w_string(&mut out, d.update_time.as_str());
    out.append(",\"items\":");
    w_items(&mut out, &d.items);
    out.append("}");
    proof {
        reveal_strlit("}");
        assert("}"@ =~= seq!['}']);
        assert(out@ =~= json_of(d.deep_view()));
    }
    out
}

// ------------------------------------------------------------------
// The executable reader.
// ------------------------------------------------------------------

fn lit_match(s: &str, i: usize, n: usize, lit: &str) -> (r: Option<usize>)
    requires
        n as nat == s@.len(),
        i <= n,
    ensures
        r matches Some(j) ==> (lit_at(s@, i as int, lit@) && j as int == i + lit@.len() && i <= j
            <= n),
        r is None ==> !lit_at(s@, i as int, lit@),
{
    let l = lit.unicode_len();
    if l > n - i {
        return None;
    }
    let mut k: usize = 0;
    while k < l
        invariant
            k <= l,
            i + l <= n,
            n as nat == s@.len(),
            l as nat == lit@.len(),
            forall|m: int| 0 <= m < k ==> s@[i + m] == lit@[m],
        decreases l - k,
    {
        if s.get_char(i + k) != lit.get_char(k) {
            proof {
                if lit_at(s@, i as int, lit@) {
                    assert(s@[i + k] == s@.subrange(i as int, i + lit@.len())[k as int]);
                }
            }
            return None;
        }
        k = k + 1;
    }
    proof {
        assert(s@.subrange(i as int, i + lit@.len()) =~= lit@);
    }
    Some(i + l)
}

fn x_chars(s: &str, i: usize, n: usize) -> (r: Option<(String, usize)>)
    requires
        n as nat == s@.len(),
        i <= n,
    ensures
        r matches Some(p) ==> (p_chars(s@, i as int) matches Some(q) && q.0 == p.0@ && q.1
            == p.1 as int && p.1 <= n),
        r is None ==> p_chars(s@, i as int) is None,
    decreases n - i,
{
    if i >= n {
        return None;
    }
    let c = s.get_char(i);
    if c == '"' {
        return Some((String::new(), i));
    }
    if c == '\\' {
        if i + 1 < n {
            let c2 = s.get_char(i + 1);
            if c2 == '"' || c2 == '\\' {
                match x_chars(s, i + 2, n) {
                    Some((t, j)) => {
                        let mut w = String::new();
                        push_char(&mut w, c2);
                        w.append(t.as_str());
                        proof {
                            assert(w@ =~= seq![s@[i + 1]] + t@);
                        }
                        return Some((w, j));
                    },
                    None => {
                        return None;
                    },
                }
            }
        }
        return None;
    }
    match x_chars(s, i + 1, n) {
        Some((t, j)) => {
            let mut w = String::new();
            push_char(&mut w, c);
            w.append(t.as_str());
            proof {
                assert(w@ =~= seq![s@[i as int]] + t@);
            }
            Some((w, j))
        },
        None => None,
    }
}

fn x_string(s: &str, i: usize, n: usize) -> (r: Option<(String, usize)>)
    requires
        n as nat == s@.len(),
        i <= n,
    ensures
        r matches Some(p) ==> (p_string(s@, i as int) matches Some(q) && q.0 == p.0@ && q.1
            == p.1 as int && p.1 <= n),
        r is None ==> p_string(s@, i as int) is None,
{
    if i < n && s.get_char(i) == '"' {
        match x_chars(s, i + 1, n) {
            Some((v, j)) => {
                if j < n && s.get_char(j) == '"' {
                    Some((v, j + 1))
                } else {
                    None
                }
            },
            None => None,
        }
    } else {
        None
    }
}

fn x_u64(s: &str, i: usize, n: usize) -> (r: Option<(u64, usize)>)
    requires
        n as nat == s@.len(),
        i <= n,
    ensures
        r matches Some(p) ==> (p_u64(s@, i as int) matches Some(q) && q.0 == p.0 && q.1
            == p.1 as int && p.1 <= n),
        r is None ==> p_u64(s@, i as int) is None,
{
    let j = scan_digits(s, i, n);
    if j == i {
        return None;
    }
    if s.get_char(i) == '0' && j > i + 1 {
        return None;
    }
    proof {
        assert forall|m: int| i <= m < j implies is_digit(#[trigger] s@[m]) by {
            lemma_digits_run(s@, i as int, m, j as int);
        }
    }
    match digits_to_u64(s, i, j, n) {
        Some(v) => Some((v, j)),
        None => None,
    }
}

fn x_status(s: &str, i: usize, n: usize) -> (r: Option<(ConfirmStatus, usize)>)
    requires
        n as nat == s@.len(),
        i <= n,
    ensures
        r matches Some(p) ==> (p_status(s@, i as int) matches Some(q) && q.0 == p.0 && q.1
            == p.1 as int && p.1 <= n),
        r is None ==> p_status(s@, i as int) is None,
{
    match lit_match(s, i, n, "\"unconfirmed\"") {
        Some(j) => {
            return Some((ConfirmStatus::Unconfirmed, j));
        },
        None => {},
    }
    match lit_match(s, i, n, "\"match\"") {
        Some(j) => {
            return Some((ConfirmStatus::Match, j));
        },
        None => {},
    }
    match lit_match(s, i, n, "\"model\"") {
        Some(j) => {
            return Some((ConfirmStatus::Model, j));
        },
        None => {},
    }
    match lit_match(s, i, n, "\"human\"") {
        Some(j) => {
            return Some((ConfirmStatus::Human, j));
        },
        None => {},
    }
    None
}

fn x_media(s: &str, i: usize, n: usize) -> (r: Option<(MediaType, usize)>)
    requires
        n as nat == s@.len(),
        i <= n,
    ensures
        r matches Some(p) ==> (p_media(s@, i as int) matches Some(q) && q.0 == p.0 && q.1
            == p.1 as int && p.1 <= n),
        r is None ==> p_media(s@, i as int) is None,
{
    match lit_match(s, i, n, "\"tv\"") {
        Some(j) => {
            return Some((MediaType::Tv, j));
        },
        None => {},
    }
    match lit_match(s, i, n, "\"ova\"") {
        Some(j) => {
            return Some((MediaType::Ova, j));
        },
        None => {},
    }
    match lit_match(s, i, n, "\"ona\"") {
        Some(j) => {
            return Some((MediaType::Ona, j));
        },
        None => {},
    }
    match lit_match(s, i, n, "\"movie\"") {
        Some(j) => {
            return Some((MediaType::Movie, j));
        },
        None => {},
    }
    match lit_match(s, i, n, "\"special\"") {
        Some(j) => {
            return Some((MediaType::Special, j));
        },
        None => {},
    }
    match lit_match(s, i, n, "\"tv_special\"") {
        Some(j) => {
            return Some((MediaType::TvSpecial, j));
        },
        None => {},
    }
    None
}

fn x_rating(s: &str, i: usize, n: usize) -> (r: Option<(Rating, usize)>)
    requires
        n as nat == s@.len(),
        i <= n,
    ensures
        r matches Some(p) ==> (p_rating(s@, i as int) matches Some(q) && q.0 == p.0 && q.1
            == p.1 as int && p.1 <= n),
        r is None ==> p_rating(s@, i as int) is None,
{
    match lit_match(s, i, n, "\"kids\"") {
        Some(j) => {
            return Some((Rating::Kids, j));
        },
        None => {},
    }
    match lit_match(s, i, n, "\"general\"") {
        Some(j) => {
            return Some((Rating::General, j));
        },
        None => {},
    }
    match lit_match(s, i, n, "\"r18\"") {
        Some(j) => {
            return Some((Rating::R18, j));
        },
        None => {},
    }
    None
}

fn x_opt_num(s: &str, i: usize, n: usize, lit: &str) -> (r: Option<(Option<u64>, usize)>)
    requires
        n as nat == s@.len(),
        i <= n,
    ensures
        r matches Some(p) ==> (p_opt_num(s@, i as int, lit@) matches Some(q) && q.0 == p.0 && q.1
            == p.1 as int && p.1 <= n),
        r is None ==> p_opt_num(s@, i as int, lit@) is None,
{
    match lit_match(s, i, n, lit) {
        Some(j) => match x_u64(s, j, n) {
            Some((v, j2)) => Some((Some(v), j2)),
            None => None,
        },
        None => Some((None, i)),
    }
}

fn x_opt_str(s: &str, i: usize, n: usize, lit: &str) -> (r: Option<(Option<String>, usize)>)
    requires
        n as nat == s@.len(),
        i <= n,
    ensures
        r matches Some(p) ==> (p_opt_str(s@, i as int, lit@) matches Some(q) && q.0
            == p.0.deep_view() && q.1 == p.1 as int && p.1 <= n),
        r is None ==> p_opt_str(s@, i as int, lit@) is None,
{
    match lit_match(s, i, n, lit) {
        Some(j) => match x_string(s, j, n) {
            Some((v, j2)) => Some((Some(v), j2)),
            None => None,
        },
        None => Some((None, i)),
    }
}

fn x_cand(s: &str, i: usize, n: usize) -> (r: Option<(BgmCandidate, usize)>)
    requires
        n as nat == s@.len(),
        i <= n,
    ensures
        r matches Some(p) ==> (p_cand(s@, i as int) matches Some(q) && q.0 == p.0.deep_view()
            && q.1 == p.1 as int && p.1 <= n),
        r is None ==> p_cand(s@, i as int) is None,
{
    let j0 = match lit_match(s, i, n, "{\"bgm_id\":") {
        Some(j) => j,
        None => {
            return None;
        },
    };
    let (id, j1) = match x_u64(s, j0, n) {
        Some(p) => p,
        None => {
            return None;
        },
    };
    let j2 = match lit_match(s, j1, n, ",\"bgm_name\":") {
        Some(j) => j,
        None => {
            return None;
        },
    };
    let (nm, j3) = match x_string(s, j2, n) {
        Some(p) => p,
        None => {
            return None;
        },
    };
    let (cn, j4) = match x_opt_str(s, j3, n, ",\"bgm_name_cn\":") {
        Some(p) => p,
        None => {
            return None;
        },
    };
    let j5 = match lit_match(s, j4, n, "}") {
        Some(j) => j,
        None => {
            proof {
                reveal_strlit("}");
                assert("}"@ =~= seq!['}']);
            }
            return None;
        },
    };
    proof {
        reveal_strlit("}");
        assert("}"@ =~= seq!['}']);
    }
    Some((BgmCandidate { bgm_id: id, bgm_name: nm, bgm_name_cn: cn }, j5))
}

fn x_cands_rest(s: &str, i: usize, n: usize) -> (r: Option<(Vec<BgmCandidate>, usize)>)
    requires
        n as nat == s@.len(),
        i <= n,
    ensures
        r matches Some(p) ==> (p_cands_rest(s@, i as int) matches Some(q) && q.0
            == p.0.deep_view() && q.1 == p.1 as int && p.1 <= n),
        r is None ==> p_cands_rest(s@, i as int) is None,
    decreases n - i,
{
    proof {
        reveal_strlit("]");
        reveal_strlit(",");
        assert("]"@ =~= seq![']']);
        assert(","@ =~= seq![',']);
    }
    match lit_match(s, i, n, "]") {
        Some(j) => {
            let out: Vec<BgmCandidate> = Vec::new();
            proof {
                assert(out.deep_view() =~= Seq::<CandidateView>::empty());
            }
            return Some((out, j));
        },
        None => {},
    }
    match lit_match(s, i, n, ",") {
        Some(_) => {},
        None => {
            return None;
        },
    }
    let (c, j) = match x_cand(s, i + 1, n) {
        Some(p) => p,
        None => {
            return None;
        },
    };
    if !(i + 1 < j) {
        return None;
    }
    match x_cands_rest(s, j, n) {
        Some((cs, j2)) => {
            let ghost pre = cs.deep_view();
            let mut cs = cs;
            cs.insert(0, c);
            proof {
                assert(cs.deep_view() =~= seq![c.deep_view()] + pre);
            }
            Some((cs, j2))
        },
        None => None,
    }
}

fn x_cands(s: &str, i: usize, n: usize) -> (r: Option<(Vec<BgmCandidate>, usize)>)
    requires
        n as nat == s@.len(),
        i <= n,
    ensures
        r matches Some(p) ==> (p_cands(s@, i as int) matches Some(q) && q.0 == p.0.deep_view()
            && q.1 == p.1 as int && p.1 <= n),
        r is None ==> p_cands(s@, i as int) is None,
{
    proof {
        reveal_strlit("[");
        assert("["@ =~= seq!['[']);
    }
    match lit_match(s, i, n, "[]") {
        Some(j) => {
            let out: Vec<BgmCandidate> = Vec::new();
            proof {
                assert(out.deep_view() =~= Seq::<CandidateView>::empty());
            }
            return Some((out, j));
        },
        None => {},
    }
    match lit_match(s, i, n, "[") {
        Some(_) => {},
        None => {
            return None;
        },
    }
    let (c, j) = match x_cand(s, i + 1, n) {
        Some(p) => p,
        None => {
            return None;
        },
    };
    if !(i + 1 < j) {
        return None;
    }
    match x_cands_rest(s, j, n) {
        Some((cs, j2)) => {
            let ghost pre = cs.deep_view();
            let mut cs = cs;
            cs.insert(0, c);
            proof {
                assert(cs.deep_view() =~= seq![c.deep_view()] + pre);
            }
            Some((cs, j2))
        },
        None => None,
    }
}

fn x_opt_cands(s: &str, i: usize, n: usize) -> (r: Option<(Vec<BgmCandidate>, usize)>)
    requires
        n as nat == s@.len(),
        i <= n,
    ensures
        r matches Some(p) ==> (p_opt_cands(s@, i as int) matches Some(q) && q.0
            == p.0.deep_view() && q.1 == p.1 as int && p.1 <= n),
        r is None ==> p_opt_cands(s@, i as int) is None,
{
    match lit_match(s, i, n, ",\"candidates\":") {
        Some(j) => x_cands(s, j, n),
        None => {
            let out: Vec<BgmCandidate> = Vec::new();
            proof {
                assert(out.deep_view() =~= Seq::<CandidateView>::empty());
            }
            Some((out, i))
        },
    }
}

fn x_mal(s: &str, i: usize, n: usize) -> (r: Option<(MalInfo, usize)>)
    requires
        n as nat == s@.len(),
        i <= n,
    ensures
        r matches Some(p) ==> (p_mal(s@, i as int) matches Some(q) && q.0 == p.0.deep_view()
            && q.1 == p.1 as int && p.1 <= n),
        r is None ==> p_mal(s@, i as int) is None,
{
    let j0 = match lit_match(s, i, n, "{\"id\":") {
        Some(j) => j,
        None => {
            return None;
        },
    };
    let (id, j1) = match x_u64(s, j0, n) {
        Some(p) => p,
        None => {
            return None;
        },
    };
    let j2 = match lit_match(s, j1, n, ",\"title\":") {
        Some(j) => j,
        None => {
            return None;
        },
    };
    let (title, j3) = match x_string(s, j2, n) {
        Some(p) => p,
        None => {
            return None;
        },
    };
    let (ja, j4) = match x_opt_str(s, j3, n, ",\"title_ja\":") {
        Some(p) => p,
        None => {
            return None;
        },
    };
    let j5 = match lit_match(s, j4, n, ",\"media_type\":") {
        Some(j) => j,
        None => {
            return None;
        },
    };
    let (mt, j6) = match x_media(s, j5, n) {
        Some(p) => p,
        None => {
            return None;
        },
    };
    let j7 = match lit_match(s, j6, n, ",\"rating\":") {
        Some(j) => j,
        None => {
            return None;
        },
    };
    let (rt, j8) = match x_rating(s, j7, n) {
        Some(p) => p,
        None => {
            return None;
        },
    };
    proof {
        reveal_strlit("}");
        assert("}"@ =~= seq!['}']);
    }
    let j9 = match lit_match(s, j8, n, "}") {
        Some(j) => j,
        None => {
            return None;
        },
    };
    Some((MalInfo { id, title, title_ja: ja, media_type: mt, rating: rt }, j9))
}

fn x_item(s: &str, i: usize, n: usize) -> (r: Option<(SeasonItem, usize)>)
    requires
        n as nat == s@.len(),
        i <= n,
    ensures
        r matches Some(p) ==> (p_item(s@, i as int) matches Some(q) && q.0 == p.0.deep_view()
            && q.1 == p.1 as int && p.1 <= n),
        r is None ==> p_item(s@, i as int) is None,
{
    let j0 = match lit_match(s, i, n, "{\"status\":") {
        Some(j) => j,
        None => {
            return None;
        },
    };
    let (st, j1) = match x_status(s, j0, n) {
        Some(p) => p,
        None => {
            return None;
        },
    };
    let (bid, j2) = match x_opt_num(s, j1, n, ",\"bgm_id\":") {
        Some(p) => p,
        None => {
            return None;
        },
    };
    let (bnm, j3) = match x_opt_str(s, j2, n, ",\"bgm_name\":") {
        Some(p) => p,
        None => {
            return None;
        },
    };
    let (bcn, j4) = match x_opt_str(s, j3, n, ",\"bgm_name_cn\":") {
        Some(p) => p,
        None => {
            return None;
        },
    };
    let (cands, j5) = match x_opt_cands(s, j4, n) {
        Some(p) => p,
        None => {
            return None;
        },
    };
    let j6 = match lit_match(s, j5, n, ",\"mal\":") {
        Some(j) => j,
        None => {
            return None;
        },
    };
    let (m, j7) = match x_mal(s, j6, n) {
        Some(p) => p,
        None => {
            return None;
        },
    };
    proof {
        reveal_strlit("}");
        assert("}"@ =~= seq!['}']);
    }
    let j8 = match lit_match(s, j7, n, "}") {
        Some(j) => j,
        None => {
            return None;
        },
    };
    Some(
        (
            SeasonItem {
                status: st,
                bgm_id: bid,
                bgm_name: bnm,
                bgm_name_cn: bcn,
                candidates: cands,
                mal: m,
            },
            j8,
        ),
    )
}

fn x_items_rest(s: &str, i: usize, n: usize) -> (r: Option<(Vec<SeasonItem>, usize)>)
    requires
        n as nat == s@.len(),
        i <= n,
    ensures
        r matches Some(p) ==> (p_items_rest(s@, i as int) matches Some(q) && q.0
            == p.0.deep_view() && q.1 == p.1 as int && p.1 <= n),
        r is None ==> p_items_rest(s@, i as int) is None,
    decreases n - i,
{
    proof {
        reveal_strlit("]");
        reveal_strlit(",");
        assert("]"@ =~= seq![']']);
        assert(","@ =~= seq![',']);
    }
    match lit_match(s, i, n, "]") {
        Some(j) => {
            let out: Vec<SeasonItem> = Vec::new();
            proof {
                assert(out.deep_view() =~= Seq::<ItemView>::empty());
            }
            return Some((out, j));
        },
        None => {},
    }
    match lit_match(s, i, n, ",") {
        Some(_) => {},
        None => {
            return None;
        },
    }
    let (it, j) = match x_item(s, i + 1, n) {
        Some(p) => p,
        None => {
            return None;
        },
    };
    if !(i + 1 < j) {
        return None;
    }
    match x_items_rest(s, j, n) {
        Some((its, j2)) => {
            let ghost pre = its.deep_view();
            let mut its = its;
            its.insert(0, it);
            proof {
                assert(its.deep_view() =~= seq![it.deep_view()] + pre);
            }
            Some((its, j2))
        },
        None => None,
    }
}

fn x_items(s: &str, i: usize, n: usize) -> (r: Option<(Vec<SeasonItem>, usize)>)
    requires
        n as nat == s@.len(),
        i <= n,
    ensures
        r matches Some(p) ==> (p_items(s@, i as int) matches Some(q) && q.0 == p.0.deep_view()
            && q.1 == p.1 as int && p.1 <= n),
        r is None ==> p_items(s@, i as int) is None,
{
    proof {
        reveal_strlit("[");
        assert("["@ =~= seq!['[']);
    }
    match lit_match(s, i, n, "[]") {
        Some(j) => {
            let out: Vec<SeasonItem> = Vec::new();
            proof {
                assert(out.deep_view() =~= Seq::<ItemView>::empty());
            }
            return Some((out, j));
        },
        None => {},
    }
    match lit_match(s, i, n, "[") {
        Some(_) => {},
        None => {
            return None;
        },
    }
    let (it, j) = match x_item(s, i + 1, n) {
        Some(p) => p,
        None => {
            return None;
        },
    };
    if !(i + 1 < j) {
        return None;
    }
    match x_items_rest(s, j, n) {
        Some((its, j2)) => {
            let ghost pre = its.deep_view();
            let mut its = its;
            its.insert(0, it);
            proof {
                assert(its.deep_view() =~= seq![it.deep_view()] + pre);
            }
            Some((its, j2))
        },
        None => None,
    }
}

/// Reads a persisted text back to the result set it denotes: `None`
/// for anything but exactly one written result set.
pub fn from_json(s: &str) -> (r: Option<SeasonData>)
    ensures
        r matches Some(d) ==> data_of_json(s@) == Some(d.deep_view()),
        r is None ==> data_of_json(s@) is None,
{
    let n = s.unicode_len();
    let j0 = match lit_match(s, 0, n, "{\"season\":") {
        Some(j) => j,
        None => {
            return None;
        },
    };
    let (season, j1) = match x_string(s, j0, n) {
        Some(p) => p,
        None => {
            return None;
        },
    };
    let j2 = match lit_match(s, j1, n, ",\"update_time\":") {
        Some(j) => j,
        None => {
            return None;
        },
    };
    let (ut, j3) = match x_string(s, j2, n) {
        Some(p) => p,
        None => {
            return None;
        },
    };
    let j4 = match lit_match(s, j3, n, ",\"items\":") {
        Some(j) => j,
        None => {
            return None;
        },
    };
    let (items, j5) = match x_items(s, j4, n) {
        Some(p) => p,
        None => {
            return None;
        },
    };
    proof {
        reveal_strlit("}");
        assert("}"@ =~= seq!['}']);
    }
    let j6 = match lit_match(s, j5, n, "}") {
        Some(j) => j,
        None => {
            return None;
        },
    };
    if j6 != n {
        return None;
    }
    Some(SeasonData { season, update_time: ut, items })
}

} // verus!
