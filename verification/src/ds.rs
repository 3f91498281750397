//! The disambiguation side: chat messages for the language-model
//! collaborator, the fixed matching rubric, the compact per-call
//! payload, and the parser for the model's verdict. The network client
//! that posts the chat lives outside the library; a verdict it hands
//! back is checked here, and anything malformed counts as no selection.

use vstd::prelude::*;
use vstd::string::StrSliceExecFns;
use vstd::string::StringExecFns;

use crate::model::{BgmCandidate, CandidateView};
use crate::text::{
    dec_digits, digits_end, digits_to_u64, digits_val, is_digit, lemma_digits_run, scan_digits,
    skip_ws, u64_to_string, ws_end,
};

verus! {

/// Who speaks one chat message.
#[derive(Debug, Clone, Copy, PartialEq, Eq, Structural)]
pub enum Role {
    System,
    User,
    Assistant,
}

/// One chat message.
#[derive(Debug, Clone)]
pub struct Message {
    pub role: Role,
    pub content: String,
}

impl Message {
    /// A system message.
    pub fn system(content: &str) -> (m: Self)
        ensures
            m.role is System,
            m.content@ == content@,
    {
        Message { role: Role::System, content: content.to_owned() }
    }

    /// A user message.
    pub fn user(content: &str) -> (m: Self)
        ensures
            m.role is User,
            m.content@ == content@,
    {
        Message { role: Role::User, content: content.to_owned() }
    }

    /// An assistant message.
    pub fn assistant(content: &str) -> (m: Self)
        ensures
            m.role is Assistant,
            m.content@ == content@,
    {
        Message { role: Role::Assistant, content: content.to_owned() }
    }
}

/// Token accounting of one chat exchange.
#[derive(Debug, Clone)]
pub struct Usage {
    pub prompt_tokens: u32,
    pub completion_tokens: u32,
    pub total_tokens: u32,
    pub prompt_cache_hit_tokens: Option<u32>,
    pub prompt_cache_miss_tokens: Option<u32>,
}

/// One alternative completion of a chat exchange.
#[derive(Debug, Clone)]
pub struct Choice {
    pub index: u32,
    pub message: Message,
    pub finish_reason: Option<String>,
}

/// The collaborator's answer to one chat request.
#[derive(Debug, Clone)]
pub struct ChatResponse {
    pub id: String,
    pub object: String,
    pub created: u64,
    pub model: String,
    pub choices: Vec<Choice>,
    pub usage: Usage,
}

impl ChatResponse {
    /// The content of the first completion, if there is one.
    pub fn content(&self) -> (r: Option<&str>)
        ensures
            self.choices@.len() == 0 ==> r is None,
            self.choices@.len() > 0 ==> (r matches Some(s) && s@
                == self.choices@[0].message.content@),
    {
        if self.choices.len() > 0 {
            Some(self.choices[0].message.content.as_str())
        } else {
            None
        }
    }
}

/// The fixed instruction under which the model adjudicates: a sequel
/// must match its season number exactly, and the verdict is a
/// one-field JSON object. Kept byte-stable across calls so the
/// collaborator's prompt cache can be reused.
pub fn match_system_prompt() -> &'static str {
    "匹配MAL动漫与Bangumi候选。续作必须季数一致（2nd/第2期/II等）。输出JSON：{\"id\":数字或null}"
}

/// One candidate line of the disambiguation payload:
/// a line break, the candidate's identifier, a colon, its primary
/// name, and `|<localized name>` when one is present.
pub open spec fn match_input_line(c: CandidateView) -> Seq<char> {
    let base = "\n"@ + dec_digits(c.bgm_id as nat) + ":"@ + c.bgm_name;
    match c.bgm_name_cn {
        Some(cn) => base + "|"@ + cn,
        None => base,
    }
}

/// The candidate lines of the payload, in candidate order.
pub open spec fn match_input_lines(cands: Seq<CandidateView>) -> Seq<char>
    decreases cands.len(),
{
    if cands.len() == 0 {
        Seq::empty()
    } else {
        match_input_lines(cands.drop_last()) + match_input_line(cands.last())
    }
}

/// The compact payload handed to the model: the display title, the
/// native title when present, and the candidate listing.
pub open spec fn match_input(
    title: Seq<char>,
    title_ja: Option<Seq<char>>,
    cands: Seq<CandidateView>,
) -> Seq<char> {
    "MAL:"@ + title + (match title_ja {
        Some(j) => "|"@ + j,
        None => Seq::<char>::empty(),
    }) + "\nBGM:"@ + match_input_lines(cands)
}

/// Renders the disambiguation payload for one entry.
pub fn build_match_input(
    mal_title: &str,
    mal_title_ja: Option<&str>,
    candidates: &Vec<BgmCandidate>,
) -> (s: String)
    ensures
        s@ == match_input(mal_title@, mal_title_ja.deep_view(), candidates.deep_view()),
{
    let mut s = String::from_str("MAL:");
    s.append(mal_title);
    match mal_title_ja {
        Some(ja) => {
            s.append("|");
            s.append(ja);
        },
        None => {},
    }
    s.append("\nBGM:");
    let ghost head = s@;
    let mut i: usize = 0;
    while i < candidates.len()
        invariant
            i <= candidates@.len(),
            s@ == head + match_input_lines(candidates.deep_view().take(i as int)),
        decreases candidates@.len() - i,
    {
        let c = &candidates[i];
        s.append("\n");
        let id_str = u64_to_string(c.bgm_id);
        s.append(id_str.as_str());
        s.append(":");
        s.append(c.bgm_name.as_str());
        match &c.bgm_name_cn {
            Some(cn) => {
                s.append("|");
                s.append(cn.as_str());
            },
            None => {},
        }
        proof {
            let cv = candidates.deep_view();
            assert(cv.take(i + 1).drop_last() =~= cv.take(i as int));
            assert(cv.take(i + 1).last() == cv[i as int]);
            assert(s@ =~= head + match_input_lines(cv.take(i + 1)));
        }
        i = i + 1;
    }
    proof {
        assert(candidates.deep_view().take(candidates@.len() as int) =~= candidates.deep_view());
        assert(s@ =~= match_input(mal_title@, mal_title_ja.deep_view(), candidates.deep_view()));
    }
    s
}

/// After position `i` the text may close: blanks, a closing brace, and
/// nothing but blanks behind it.
pub open spec fn closing_ok(s: Seq<char>, i: int) -> bool {
    let k = ws_end(s, i);
    k < s.len() && s[k] == '}' && ws_end(s, k + 1) == s.len()
}

/// The verdict grammar: a JSON object with the single field `id`
/// holding either `null` or a decimal number that fits an unsigned
/// 64-bit integer (no leading zeros, as JSON demands). `None` means
/// the text is malformed and the verdict counts as no selection.
pub open spec fn match_result_of(s: Seq<char>) -> Option<Option<u64>> {
    let i1 = ws_end(s, 0);
    if !(i1 < s.len() && s[i1] == '{') {
        None
    } else {
        let i2 = ws_end(s, i1 + 1);
        if !(i2 + 4 <= s.len() && s[i2] == '"' && s[i2 + 1] == 'i' && s[i2 + 2] == 'd' && s[i2 + 3]
            == '"') {
            None
        } else {
            let i3 = ws_end(s, i2 + 4);
            if !(i3 < s.len() && s[i3] == ':') {
                None
            } else {
                let i4 = ws_end(s, i3 + 1);
                if i4 + 4 <= s.len() && s[i4] == 'n' && s[i4 + 1] == 'u' && s[i4 + 2] == 'l' && s[i4
                    + 3] == 'l' {
                    if closing_ok(s, i4 + 4) {
                        Some(None)
                    } else {
                        None
                    }
                } else {
                    let j = digits_end(s, i4);
                    if j == i4 {
                        None
                    } else if s[i4] == '0' && j > i4 + 1 {
                        None
                    } else if digits_val(s, i4, j) > u64::MAX {
                        None
                    } else if closing_ok(s, j) {
                        Some(Some(digits_val(s, i4, j) as u64))
                    } else {
                        None
                    }
                }
            }
        }
    }
}

/// Parses the model's verdict. `Some(Some(id))` is a selected
/// candidate identifier, `Some(None)` an explicit `null`, and `None`
/// malformed text, which the caller treats as no selection.
pub fn parse_match_result(content: &str) -> (r: Option<Option<u64>>)
    ensures
        r == match_result_of(content@),
{
    let n = content.unicode_len();
    let i1 = skip_ws(content, 0, n);
    if !(i1 < n && content.get_char(i1) == '{') {
        return None;
    }
    let i2 = skip_ws(content, i1 + 1, n);
    if !(n - i2 >= 4 && content.get_char(i2) == '"' && content.get_char(i2 + 1) == 'i'
        && content.get_char(i2 + 2) == 'd' && content.get_char(i2 + 3) == '"') {
        return None;
    }
    let i3 = skip_ws(content, i2 + 4, n);
    if !(i3 < n && content.get_char(i3) == ':') {
        return None;
    }
    let i4 = skip_ws(content, i3 + 1, n);
    if n - i4 >= 4 && content.get_char(i4) == 'n' && content.get_char(i4 + 1) == 'u'
        && content.get_char(i4 + 2) == 'l' && content.get_char(i4 + 3) == 'l' {
        let k = skip_ws(content, i4 + 4, n);
        if k < n && content.get_char(k) == '}' && skip_ws(content, k + 1, n) == n {
            return Some(None);
        }
        return None;
    }
    let j = scan_digits(content, i4, n);
    if j == i4 {
        return None;
    }
    if content.get_char(i4) == '0' && j > i4 + 1 {
        return None;
    }
    proof {
        assert forall|m: int| i4 <= m < j implies is_digit(#[trigger] content@[m]) by {
            lemma_digits_run(content@, i4 as int, m, j as int);
        }
    }
    let value = match digits_to_u64(content, i4, j, n) {
        Some(v) => v,
        None => {
            return None;
        },
    };
    let k = skip_ws(content, j, n);
    if k < n && content.get_char(k) == '}' && skip_ws(content, k + 1, n) == n {
        return Some(Some(value));
    }
    None
}

} // verus!
