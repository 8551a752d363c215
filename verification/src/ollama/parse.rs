//! The context window of a model, read from what `/api/show` answers.
use vstd::prelude::*;

use crate::json::{
    json_array, json_as_array, json_as_u64, json_get, json_member, json_str, json_u64, str_member,
};
use crate::text::{chars_eq, chars_of, lines, lines_of, parse_u64, parse_u64_spec, words, words_of};

verus! {

/// The value of a `num_ctx <n>` line among `ls[k..]`, the first that parses.
pub open spec fn num_ctx_from(ls: Seq<Seq<char>>, k: nat) -> Option<u64>
    decreases ls.len() - k,
{
    if k >= ls.len() {
        None
    } else {
        let parts = words(ls[k as int]);
        if parts.len() == 2 && parts[0] == "num_ctx"@ && parse_u64_spec(parts[1]) is Some {
            parse_u64_spec(parts[1])
        } else {
            num_ctx_from(ls, k + 1)
        }
    }
}

/// The context window: a `num_ctx` parameter first; else the context length
/// of the model's architecture, of `llama`, or the general one.
pub open spec fn context_window_spec(resp: serde_json::Value) -> Option<u64> {
    let from_params = match json_str(json_get(resp, "parameters"@)) {
        Some(p) => num_ctx_from(lines(p), 0),
        None => None,
    };
    let mi = json_get(resp, "model_info"@);
    let from_arch = match json_str(json_get(mi, "general.architecture"@)) {
        Some(arch) => json_u64(json_get(mi, arch + ".context_length"@)),
        None => None,
    };
    if from_params is Some {
        from_params
    } else if from_arch is Some {
        from_arch
    } else if json_u64(json_get(mi, "llama.context_length"@)) is Some {
        json_u64(json_get(mi, "llama.context_length"@))
    } else {
        json_u64(json_get(mi, "general.context_length"@))
    }
}

fn num_ctx_of(params: &String) -> (r: Option<u64>)
    ensures
        r == num_ctx_from(lines(params@), 0),
{
    let cs = chars_of(params.as_str());
    let ls = lines_of(&cs);
    let ghost lv = lines(params@);
    let key = chars_of("num_ctx");
    let n = ls.len();
    let mut k: usize = 0;
    while k < n
        invariant
            lv == lines(params@),
            n == lv.len(),
            ls@.len() == lv.len(),
            forall|i: int| 0 <= i < lv.len() ==> (#[trigger] ls@[i])@ == lv[i],
            key@ == "num_ctx"@,
            k <= n,
            num_ctx_from(lv, 0) == num_ctx_from(lv, k as nat),
        decreases n - k,
    {
        let parts = words_of(&ls[k]);
        assert(ls@[k as int]@ == lv[k as int]);
        if parts.len() == 2 && chars_eq(&parts[0], &key) {
            assert(parts@[0]@ == words(lv[k as int])[0]);
            assert(parts@[1]@ == words(lv[k as int])[1]);
            if let Some(v) = parse_u64(&parts[1]) {
                return Some(v);
            }
        }
        k = k + 1;
    }
    None
}

pub fn parse_context_window(resp: &serde_json::Value) -> (r: Option<u64>)
    ensures
        r == context_window_spec(*resp),
{
    if let Some(params) = str_member(resp, "parameters") {
        if let Some(n) = num_ctx_of(&params) {
            return Some(n);
        }
    }
    let mi = json_member(resp, "model_info");
    if let Some(arch) = str_member(&mi, "general.architecture") {
        let mut key = arch;
        key.append(".context_length");
        if let Some(n) = json_as_u64(&json_member(&mi, key.as_str())) {
            return Some(n);
        }
    }
    if let Some(n) = json_as_u64(&json_member(&mi, "llama.context_length")) {
        return Some(n);
    }
    json_as_u64(&json_member(&mi, "general.context_length"))
}


/// The names in a model list (`/api/tags`): each entry of `models` whose
/// `name` is text, in order.
pub open spec fn names_of(entries: Seq<serde_json::Value>) -> Seq<Seq<char>>
    decreases entries.len(),
{
    if entries.len() == 0 {
        Seq::empty()
    } else {
        match json_str(json_get(entries.last(), "name"@)) {
            Some(n) => names_of(entries.drop_last()).push(n),
            None => names_of(entries.drop_last()),
        }
    }
}

pub open spec fn listed_models(resp: serde_json::Value) -> Seq<serde_json::Value> {
    match json_array(json_get(resp, "models"@)) {
        Some(a) => a,
        None => Seq::empty(),
    }
}

/// The names of the models the server offers.
pub fn model_names(resp: &serde_json::Value) -> (r: Vec<String>)
    ensures
        crate::text::string_views(r@) == names_of(listed_models(*resp)),
{
    proof {
        reveal_strlit("models");
        reveal_strlit("name");
    }
    let arr = match json_as_array(&json_member(resp, "models")) {
        Some(a) => a,
        None => Vec::new(),
    };
    let ghost es = listed_models(*resp);
    assert(arr@ == es);
    let mut out: Vec<String> = Vec::new();
    let n = arr.len();
    assert(es.take(0) =~= Seq::<serde_json::Value>::empty());
    assert(crate::text::string_views(out@) =~= Seq::<Seq<char>>::empty());
    for i in 0..n
        invariant
            n == arr@.len(),
            arr@ == es,
            crate::text::string_views(out@) == names_of(es.take(i as int)),
    {
        assert(es.take(i + 1).drop_last() =~= es.take(i as int));
        let ghost before = out@;
        match str_member(&arr[i], "name") {
            Some(name) => {
                let ghost nv = name@;
                out.push(name);
                assert(crate::text::string_views(out@) =~= crate::text::string_views(before).push(nv));
            },
            None => {},
        }
    }
    assert(es.take(n as int) =~= es);
    out
}

} // verus!
