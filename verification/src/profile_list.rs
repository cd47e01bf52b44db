//! The list of configured profiles: finding a profile by name, and what
//! saving a form or deleting a profile does to the list.
use vstd::prelude::*;
use crate::form::{is_config_of, ProfileForm, FIELD_NAME};
use crate::profile::ProfileConfig;
use crate::text::{decimal, decimal_text};

verus! {

/// The names of the profiles, in order.
pub open spec fn names_of(profiles: Seq<ProfileConfig>) -> Seq<Seq<char>> {
    profiles.map_values(|p: ProfileConfig| p.name@)
}

/// Keeps the profiles that are not called `name`.
pub open spec fn not_named(name: Seq<char>) -> spec_fn(ProfileConfig) -> bool {
    |p: ProfileConfig| p.name@ != name
}

/// The outcome of saving a profile form.
#[derive(Debug, Clone, Copy, PartialEq, Eq, Structural)]
pub enum SaveOutcome {
    /// A new profile was appended.
    Added,
    /// The edited profile was replaced.
    Updated,
    /// A new profile was refused, as one of that name exists; nothing changed.
    AlreadyExists,
}

/// The name that a profile form gives its profile.
pub open spec fn form_name(form: ProfileForm) -> Seq<char> {
    form.field_views()[FIELD_NAME as int].value
}

/// The list that saving `form` keeps before it appends the form's profile:
/// an edit first drops every profile with the name the edited one had.
pub open spec fn kept_on_save(profiles: Seq<ProfileConfig>, form: ProfileForm) -> Seq<ProfileConfig> {
    if form.is_edit {
        match form.original_name {
            Some(original) => profiles.filter(not_named(original@)),
            None => profiles,
        }
    } else {
        profiles
    }
}

/// The first profile called `name`, if any.
pub fn find_profile(profiles: &Vec<ProfileConfig>, name: &String) -> (found: Option<usize>)
    ensures
        match found {
            Some(i) => names_of(profiles@).index_of_first(name@) == Some(i as int) && i
                < profiles.len(),
            None => names_of(profiles@).index_of_first(name@) is None,
        },
{
    let ghost names = names_of(profiles@);
    proof {
        names.index_of_first_ensures(name@);
    }
    let mut i: usize = 0;
    while i < profiles.len()
        invariant
            i <= profiles.len(),
            names == names_of(profiles@),
            forall|j: int| 0 <= j < i ==> names[j] != name@,
            match names.index_of_first(name@) {
                Some(index) => {
                    &&& 0 <= index < names.len()
                    &&& names[index] == name@
                    &&& forall|j: int| 0 <= j < index < names.len() ==> names[j] != name@
                },
                None => !names.contains(name@),
            },
        decreases profiles.len() - i,
    {
        if profiles[i].name.eq(name) {
            proof {
                assert(names[i as int] == name@);
                let index = names.index_of_first(name@).unwrap();
                if index < i {
                } else if index > i {
                }
            }
            return Some(i);
        }
        i = i + 1;
    }
    proof {
        if names.contains(name@) {
            let j = choose|j: int| 0 <= j < names.len() && names[j] == name@;
            assert(names[j] != name@);
        }
    }
    None
}

/// Removes every profile called `name`, keeping the others in order.
pub fn delete_profile(profiles: &mut Vec<ProfileConfig>, name: &String)
    ensures
        final(profiles)@ == old(profiles)@.filter(not_named(name@)),
{
    let ghost before = old(profiles)@;
    let ghost keep = not_named(name@);
    let ghost mut j: int = 0;
    let mut i: usize = 0;
    assert(before.take(0) =~= Seq::<ProfileConfig>::empty());
    assert(before.take(0).filter(keep) =~= Seq::<ProfileConfig>::empty());
    assert(profiles@ =~= before.take(0).filter(keep) + before.skip(0));
    while i < profiles.len()
        invariant
            0 <= j <= before.len(),
            keep == not_named(name@),
            profiles@ == before.take(j).filter(keep) + before.skip(j),
            i == before.take(j).filter(keep).len(),
        decreases before.len() - j,
    {
        let ghost kept = before.take(j).filter(keep);
        assert(j < before.len()) by {
            if j >= before.len() {
                assert(before.skip(j).len() == 0);
            }
        }
        assert(profiles@[i as int] == before[j]);
        assert(before.take(j + 1).drop_last() =~= before.take(j));
        assert(before.take(j + 1).last() == before[j]);
        proof {
            reveal_with_fuel(Seq::<_>::filter, 1);
        }
        if profiles[i].name.eq(name) {
            profiles.remove(i);
            assert(!keep(before[j]));
            assert(before.take(j + 1).filter(keep) == kept);
            assert(profiles@ =~= kept + before.skip(j + 1));
        } else {
            assert(keep(before[j]));
            assert(before.take(j + 1).filter(keep) == kept.push(before[j]));
            assert(profiles@ =~= kept.push(before[j]) + before.skip(j + 1));
            i = i + 1;
        }
        proof {
            j = j + 1;
        }
    }
    assert(j == before.len()) by {
        if j < before.len() {
            assert(profiles@.len() > i);
        }
    }
    assert(before.take(j) =~= before);
    assert(profiles@ =~= before.filter(keep));
}

/// Saves the profile that `form` describes. An edit replaces the profile it
/// was opened on; a new profile is refused if one of its name exists, and is
/// appended otherwise.
pub fn save_profile(profiles: &mut Vec<ProfileConfig>, form: &ProfileForm) -> (outcome: SaveOutcome)
    requires
        form.fields.len() >= 7,
    ensures
        outcome == if form.is_edit {
            SaveOutcome::Updated
        } else if names_of(old(profiles)@).contains(form_name(*form)) {
            SaveOutcome::AlreadyExists
        } else {
            SaveOutcome::Added
        },
        outcome == SaveOutcome::AlreadyExists ==> final(profiles)@ == old(profiles)@,
        outcome != SaveOutcome::AlreadyExists ==> {
            &&& final(profiles)@.len() > 0
            &&& final(profiles)@.drop_last() == kept_on_save(old(profiles)@, *form)
            &&& is_config_of(final(profiles)@.last(), form.field_views())
        },
{
    let config = form.to_profile_config();
    if form.is_edit {
        match &form.original_name {
            Some(original) => delete_profile(profiles, original),
            None => {},
        }
    } else {
        let existing = find_profile(profiles, &config.name);
        proof {
            names_of(profiles@).index_of_first_ensures(config.name@);
        }
        if existing.is_some() {
            return SaveOutcome::AlreadyExists;
        }
    }
    let ghost kept = profiles@;
    profiles.push(config);
    assert(profiles@.drop_last() =~= kept);
    if form.is_edit {
        SaveOutcome::Updated
    } else {
        SaveOutcome::Added
    }
}

/// The notification text for a saved form.
pub fn save_message(outcome: SaveOutcome, name: &str) -> (msg: String)
    ensures
        msg@ == match outcome {
            SaveOutcome::Added => "Added profile '"@ + name@ + "'"@,
            SaveOutcome::Updated => "Updated profile '"@ + name@ + "'"@,
            SaveOutcome::AlreadyExists => "Profile '"@ + name@ + "' already exists"@,
        },
{
    match outcome {
        SaveOutcome::Added => {
            let mut msg = "Added profile '".to_owned();
            msg.append(name);
            msg.append("'");
            msg
        },
        SaveOutcome::Updated => {
            let mut msg = "Updated profile '".to_owned();
            msg.append(name);
            msg.append("'");
            msg
        },
        SaveOutcome::AlreadyExists => {
            let mut msg = "Profile '".to_owned();
            msg.append(name);
            msg.append("' already exists");
            msg
        },
    }
}

/// The notification text for a profile whose provider answered in `latency_ms` milliseconds.
pub fn test_passed_message(name: &str, latency_ms: u64) -> (msg: String)
    ensures
        msg@ == name@ + ": OK ("@ + decimal(latency_ms as nat) + "ms)"@,
{
    let mut msg = name.to_owned();
    msg.append(": OK (");
    let latency = decimal_text(latency_ms);
    msg.append(latency.as_str());
    msg.append("ms)");
    msg
}

/// The notification text for a profile whose provider could not be reached.
pub fn test_failed_message(name: &str, reason: &str) -> (msg: String)
    ensures
        msg@ == name@ + ": FAIL - "@ + reason@,
{
    let mut msg = name.to_owned();
    msg.append(": FAIL - ");
    msg.append(reason);
    msg
}

/// The notification text for a deleted profile.
pub fn deleted_message(name: &str) -> (msg: String)
    ensures
        msg@ == "Deleted profile '"@ + name@ + "'"@,
{
    let mut msg = "Deleted profile '".to_owned();
    msg.append(name);
    msg.append("'");
    msg
}


// ---------------------------------------------------------------------------
// Laws of the profile list
// ---------------------------------------------------------------------------

/// After a profile is added, looking its name up finds the new profile, at
/// the end of the list.
pub proof fn law_added_profile_is_found(
    before: Seq<ProfileConfig>,
    after: Seq<ProfileConfig>,
    form: ProfileForm,
)
    requires
        !form.is_edit,
        !names_of(before).contains(form_name(form)),
        after.len() > 0,
        after.drop_last() == kept_on_save(before, form),
        is_config_of(after.last(), form.field_views()),
    ensures
        names_of(after).index_of_first(form_name(form)) == Some(after.len() - 1),
{
    let name = form_name(form);
    let names = names_of(after);
    assert(names_of(before) =~= names.drop_last());
    assert(names[names.len() - 1] == name);
    names.index_of_first_ensures(name);
    let i = names.index_of_first(name).unwrap();
    if i < names.len() - 1 {
        assert(names_of(before)[i] == name);
    }
}

/// After a delete, no profile of that name is left, every profile of another
/// name is still there, and deleting again changes nothing.
pub proof fn law_delete_removes_exactly_the_name(profiles: Seq<ProfileConfig>, name: Seq<char>)
    ensures
        !names_of(profiles.filter(not_named(name))).contains(name),
        forall|p: ProfileConfig|
            profiles.contains(p) && p.name@ != name ==> #[trigger] profiles.filter(
                not_named(name),
            ).contains(p),
        profiles.filter(not_named(name)).filter(not_named(name)) == profiles.filter(
            not_named(name),
        ),
{
    let keep = not_named(name);
    let kept = profiles.filter(keep);
    if names_of(kept).contains(name) {
        let k = choose|k: int| 0 <= k < names_of(kept).len() && names_of(kept)[k] == name;
        kept.lemma_filter_pred(keep, k);
        profiles.lemma_filter_pred(keep, k);
    }
    assert forall|p: ProfileConfig| profiles.contains(p) && p.name@ != name implies #[trigger] kept.contains(p) by {
        let i = choose|i: int| 0 <= i < profiles.len() && profiles[i] == p;
        profiles.lemma_filter_contains(keep, i);
    }
    lemma_filter_of_kept(kept, keep);
}

proof fn lemma_filter_of_kept(s: Seq<ProfileConfig>, keep: spec_fn(ProfileConfig) -> bool)
    requires
        forall|i: int| 0 <= i < s.len() ==> keep(#[trigger] s[i]),
    ensures
        s.filter(keep) == s,
    decreases s.len(),
{
    reveal_with_fuel(Seq::<_>::filter, 1);
    if s.len() > 0 {
        let rest = s.drop_last();
        assert forall|i: int| 0 <= i < rest.len() implies keep(#[trigger] rest[i]) by {
            assert(rest[i] == s[i]);
        }
        lemma_filter_of_kept(rest, keep);
        assert(rest.push(s.last()) =~= s);
    } else {
        assert(s.filter(keep) =~= s);
    }
}

} // verus!
