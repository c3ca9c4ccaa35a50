use vstd::prelude::*;
use vstd::string::StringExecFns;

verus! {

/// The terms under which a space is held.
#[derive(Debug, PartialEq, Eq)]
pub struct Subscription {
    pub name: String,
    pub is_free_trial: bool,
    pub marketplace: Option<String>,
    pub start_date: Option<u64>,
    pub end_date: Option<u64>,
}

impl Clone for Subscription {
    fn clone(&self) -> (copy: Subscription)
        ensures
            copy == *self,
    {
        Subscription {
            name: self.name.clone(),
            is_free_trial: self.is_free_trial,
            marketplace: match &self.marketplace {
                Some(m) => Some(m.clone()),
                None => None,
            },
            start_date: self.start_date,
            end_date: self.end_date,
        }
    }
}

/// A space of the orchestrator, as the command line keeps it.
#[derive(Debug, Clone, PartialEq, Eq)]
pub struct Space {
    pub id: String,
    pub name: String,
    pub users: Vec<String>,
    pub subscription: Option<Subscription>,
}

/// Which space is asked for.
#[derive(Debug, Clone, PartialEq, Eq)]
pub enum SpaceLookup {
    /// The space with this name.
    ByName(String),
    /// The default space.
    Default,
}

/// A space that was asked for is not there. The message says which.
#[derive(Debug, Clone, PartialEq, Eq)]
pub struct NotFound {
    pub message: String,
}

/// The characters of each of a sequence of strings.
pub open spec fn texts(list: Seq<String>) -> Seq<Seq<char>> {
    list.map_values(|s: String| s@)
}

/// The characters of each of a sequence of string slices.
pub open spec fn slice_texts(list: Seq<&str>) -> Seq<Seq<char>> {
    list.map_values(|s: &str| s@)
}

/// What is said when the space that was asked for is not there.
pub open spec fn not_found_message(lookup: SpaceLookup) -> Seq<char> {
    match lookup {
        SpaceLookup::ByName(name) => "there is no space with name "@ + name@,
        SpaceLookup::Default => "there is no default space"@,
    }
}

impl Space {
    /// The space with the given identifier, name, users and subscription.
    pub fn new(
        space_id: &str,
        space_name: &str,
        users: &Vec<&str>,
        subscription: Option<&Subscription>,
    ) -> (space: Space)
        ensures
            space.id@ == space_id@,
            space.name@ == space_name@,
            texts(space.users@) == slice_texts(users@),
            match subscription {
                Some(s) => space.subscription == Some(*s),
                None => space.subscription is None,
            },
    {
        let mut names: Vec<String> = Vec::new();
        let mut i: usize = 0;
        while i < users.len()
            invariant
                i <= users.len(),
                names@.len() == i,
                forall|k: int| 0 <= k < i ==> (#[trigger] names@[k])@ == users@[k]@,
            decreases users.len() - i,
        {
            names.push(String::from_str(users[i]));
            i += 1;
        }
        assert(texts(names@) =~= slice_texts(users@));
        Space {
            id: String::from_str(space_id),
            name: String::from_str(space_name),
            users: names,
            subscription: match subscription {
                Some(s) => Some(s.clone()),
                None => None,
            },
        }
    }
}

/// Which space a command means: the one it names, or the default space
/// where it names none.
pub fn lookup_for(name: &Option<String>) -> (lookup: SpaceLookup)
    ensures
        match name {
            Some(n) => lookup is ByName && lookup->ByName_0@ == n@,
            None => lookup == SpaceLookup::Default,
        },
{
    match name {
        Some(n) => SpaceLookup::ByName(n.clone()),
        None => SpaceLookup::Default,
    }
}

/// The space that was found, or the error that says which space is not
/// there.
pub fn found_or_error(lookup: &SpaceLookup, found: Option<Space>) -> (result: Result<
    Space,
    NotFound,
>)
    ensures
        match found {
            Some(space) => result == Ok::<Space, NotFound>(space),
            None => result is Err && result->Err_0.message@ == not_found_message(*lookup),
        },
{
    match found {
        Some(space) => Ok(space),
        None => {
            let message = match lookup {
                SpaceLookup::ByName(name) => String::from_str("there is no space with name ").concat(
                    name.as_str(),
                ),
                SpaceLookup::Default => String::from_str("there is no default space"),
            };
            Err(NotFound { message })
        },
    }
}

} // verus!
