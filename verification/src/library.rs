//! User preset library: one directory holding `<name>.yaml` files. A user preset cannot
//! take a built-in preset's name. File access is the caller's; this module decides the
//! file names and what may be saved.

use vstd::prelude::*;

use crate::error::EngineError;
use crate::model::FormatProfile;
use crate::presets::is_preset_name;
use crate::ext::str_chars;
use crate::text::{chars_less, chars_to_string, decimal, push_decimal, lemma_text_less_asymmetric, lemma_text_less_total, lemma_text_less_transitive, push_str, text_less};
use crate::validate::{first_issue_text, is_valid_profile_name, profile_issues, valid_profile_name};

verus! {

/// A stored profile.
#[derive(Debug, Clone)]
pub struct StoredProfile {
    /// Name (the file name's stem).
    pub name: String,
    /// File path.
    pub path: std::path::PathBuf,
    /// Definition.
    pub profile: FormatProfile,
}

/// A listing: the profiles read and the files that could not be read.
#[derive(Debug, Clone, Default)]
pub struct ProfileListing {
    /// Profiles read (by name).
    pub profiles: Vec<StoredProfile>,
    /// Files not read, with why.
    pub errors: Vec<(std::path::PathBuf, String)>,
}

/// A user preset directory.
#[derive(Debug, Clone)]
pub struct ProfileLibrary {
    dir: std::path::PathBuf,
}

impl ProfileLibrary {
    /// The library in `dir` (made when the first preset is saved).
    pub fn new(dir: std::path::PathBuf) -> (r: Self)
        ensures
            r.dir_view() == dir,
    {
        ProfileLibrary { dir }
    }

    /// The directory.
    pub closed spec fn dir_view(&self) -> std::path::PathBuf {
        self.dir
    }

    /// The directory.
    pub fn dir(&self) -> (r: &std::path::PathBuf)
        ensures
            *r == self.dir_view(),
    {
        &self.dir
    }
}

/// The file name of the preset `name`, or why the name cannot be one.
pub fn file_name_for(name: &str) -> (r: Result<String, EngineError>)
    ensures
        valid_profile_name(name@) ==> (r matches Ok(f) && f@ == name@ + ".yaml"@),
        !valid_profile_name(name@) ==> (r matches Err(EngineError::Format(m)) && m@ == "프로필 이름으로 쓸 수 없음: "@ + name@),
{
    if !is_valid_profile_name(name) {
        let mut m: Vec<char> = Vec::new();
        push_str(&mut m, "프로필 이름으로 쓸 수 없음: ");
        push_str(&mut m, name);
        return Err(EngineError::Format(chars_to_string(&m)));
    }
    let mut v: Vec<char> = Vec::new();
    push_str(&mut v, name);
    push_str(&mut v, ".yaml");
    Ok(chars_to_string(&v))
}

/// Why a profile cannot be saved (the message of the format error): it is invalid (the
/// first problem), it takes a built-in preset's name, or its name is no file name.
pub open spec fn save_error(p: FormatProfile) -> Option<Seq<char>> {
    let issues = profile_issues(p);
    if issues.len() > 0 {
        Some(first_issue_text(issues))
    } else if is_preset_name(p.name@) {
        Some("'"@ + p.name@ + "'은 내장 프리셋 이름이라 저장할 수 없음. 다른 이름을 쓴다"@)
    } else if !valid_profile_name(p.name@) {
        Some("프로필 이름으로 쓸 수 없음: "@ + p.name@)
    } else {
        None
    }
}

/// Whether `name` is a built-in preset's name.
pub fn is_builtin_name(name: &str) -> (r: bool)
    ensures
        r == is_preset_name(name@),
{
    crate::text::str_eq(name, "common") || crate::text::str_eq(name, "combined")
        || crate::text::str_eq(name, "apache_combined") || crate::text::str_eq(name, "nginx_combined")
        || crate::text::str_eq(name, "iis_w3c") || crate::text::str_eq(name, "w3c")
}

/// Checks that a profile may be saved and gives its file name.
pub fn check_save(profile: &FormatProfile) -> (r: Result<String, EngineError>)
    ensures
        match save_error(*profile) {
            Some(m) => r matches Err(EngineError::Format(x)) && x@ == m,
            None => r matches Ok(f) && f@ == profile.name@ + ".yaml"@,
        },
{
    match profile.ensure_valid() {
        Err(e) => return Err(e),
        Ok(()) => {},
    }
    if is_builtin_name(profile.name.as_str()) {
        let mut m: Vec<char> = Vec::new();
        push_str(&mut m, "'");
        push_str(&mut m, profile.name.as_str());
        push_str(&mut m, "'은 내장 프리셋 이름이라 저장할 수 없음. 다른 이름을 쓴다");
        return Err(EngineError::Format(chars_to_string(&m)));
    }
    file_name_for(profile.name.as_str())
}

/// Presets listed by name: no preset's name comes before that of one listed earlier.
pub open spec fn by_name_in_order(s: Seq<StoredProfile>) -> bool {
    forall|i: int, j: int| 0 <= i < j < s.len() ==> !text_less((#[trigger] s[j]).name@, (#[trigger] s[i]).name@)
}

/// The presets in name order (the text order of `String`).
pub fn sort_by_name(profiles: Vec<StoredProfile>) -> (r: Vec<StoredProfile>)
    ensures
        r@.to_multiset() == profiles@.to_multiset(),
        by_name_in_order(r@),
{
    broadcast use vstd::seq_lib::group_to_multiset_ensures, vstd::multiset::group_multiset_axioms;
    let mut rest = profiles;
    let mut out: Vec<StoredProfile> = Vec::new();
    assert(out@.to_multiset().len() == 0);
    assert(out@.to_multiset().add(rest@.to_multiset()) =~= profiles@.to_multiset());
    while rest.len() > 0
        invariant
            out@.to_multiset().add(rest@.to_multiset()) == profiles@.to_multiset(),
            by_name_in_order(out@),
        decreases rest.len(),
    {
        let ghost before_rest = rest@;
        let x = rest.remove(0);
        assert(before_rest[0] == x);
        let xn = str_chars(x.name.as_str());
        let mut p: usize = 0;
        while p < out.len() && !chars_less(&xn, &str_chars(out[p].name.as_str()))
            invariant
                p <= out.len(),
                xn@ == x.name@,
                forall|k: int| 0 <= k < p ==> !text_less(x.name@, (#[trigger] out@[k]).name@),
            decreases out.len() - p,
        {
            p = p + 1;
        }
        let ghost old_out = out@;
        assert(p < old_out.len() ==> text_less(x.name@, old_out[p as int].name@));
        out.insert(p, x);
        proof {
            assert forall|i: int, j: int| 0 <= i < j < out@.len() implies !text_less((#[trigger] out@[j]).name@, (#[trigger] out@[i]).name@) by {
                if j < p {
                    assert(out@[i] == old_out[i] && out@[j] == old_out[j]);
                    assert(!text_less(old_out[j].name@, old_out[i].name@));
                } else if j == p {
                    assert(out@[j] == x && out@[i] == old_out[i]);
                } else if i == p {
                    let y = old_out[p as int].name@;
                    let z = old_out[j - 1].name@;
                    assert(out@[j] == old_out[j - 1]);
                    if j - 1 > p {
                        assert(!text_less(old_out[j - 1].name@, old_out[p as int].name@));
                    } else {
                        lemma_text_less_asymmetric(z, z);
                    }
                    if y != z {
                        lemma_text_less_total(y, z);
                        lemma_text_less_transitive(x.name@, y, z);
                    }
                    lemma_text_less_asymmetric(x.name@, z);
                } else if i < p {
                    assert(out@[i] == old_out[i] && out@[j] == old_out[j - 1]);
                    assert(!text_less(old_out[j - 1].name@, old_out[i].name@));
                } else {
                    assert(out@[i] == old_out[i - 1] && out@[j] == old_out[j - 1]);
                    assert(!text_less(old_out[j - 1].name@, old_out[i - 1].name@));
                }
            }
            vstd::seq_lib::to_multiset_insert(old_out, p as int, x);
            vstd::seq_lib::to_multiset_remove(before_rest, 0);
            assert(out@ == old_out.insert(p as int, x));
            assert(rest@ == before_rest.remove(0));
            before_rest.to_multiset_ensures();
            assert(before_rest.contains(x));
            assert(before_rest.to_multiset().count(x) > 0);
            assert(old_out.to_multiset().add(before_rest.to_multiset()) == profiles@.to_multiset());
            assert forall|v: StoredProfile| #[trigger] out@.to_multiset().add(rest@.to_multiset()).count(v)
                == profiles@.to_multiset().count(v) by {
                if v == x {
                } else {
                }
            }
            assert(out@.to_multiset().add(rest@.to_multiset()) =~= profiles@.to_multiset());
        }
    }
    assert(rest@.to_multiset().len() == 0);
    assert(out@.to_multiset() =~= profiles@.to_multiset());
    out
}

/// The largest YAML definition read, in bytes; a file is checked by its size before it is
/// read.
pub const MAX_YAML_BYTES: u64 = 262_144;

/// A YAML definition of `bytes` bytes may be read only up to [`MAX_YAML_BYTES`].
pub fn check_yaml_size(bytes: u64) -> (r: Result<(), EngineError>)
    ensures
        bytes <= MAX_YAML_BYTES ==> r is Ok,
        bytes > MAX_YAML_BYTES ==> (r matches Err(EngineError::Limit(m))
            && m@ == "YAML이 상한 "@ + decimal(MAX_YAML_BYTES as nat) + "바이트를 넘음"@),
{
    if bytes <= MAX_YAML_BYTES {
        return Ok(());
    }
    let mut v: Vec<char> = Vec::new();
    push_str(&mut v, "YAML이 상한 ");
    push_decimal(&mut v, MAX_YAML_BYTES);
    push_str(&mut v, "바이트를 넘음");
    Err(EngineError::Limit(chars_to_string(&v)))
}

} // verus!
