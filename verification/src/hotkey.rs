//! Rebinding the in-app global shortcut (X11): the old binding is released
//! and the new one registered, rolling back on error; a clearly invalid
//! accelerator is refused before the live binding is touched. Parsing the
//! accelerator and talking to the shortcut plugin is left to the caller.

use vstd::prelude::*;

verus! {

/// The view of an optional string.
pub open spec fn opt_text(o: Option<String>) -> Option<Seq<char>> {
    match o {
        Some(s) => Some(s@),
        None => None,
    }
}

/// The first step of a rebind.
pub enum RebindStart {
    /// The new accelerator does not parse: nothing is touched; the error.
    Refuse(String),
    /// Unregister this binding (the current one, if any), then register the
    /// new accelerator and hand the outcome to `HotkeyBinding::finish`.
    Proceed { unregister: Option<String> },
}

/// How a rebind ended.
pub enum RebindEnd {
    /// The new accelerator is bound.
    Done,
    /// Registering failed: register `restore` again (the binding before,
    /// if any); the error.
    Failed { restore: Option<String>, error: String },
}

/// The binding after registering `new`: it when registration succeeded, the
/// binding before otherwise.
pub open spec fn binding_after(old: Option<Seq<char>>, new: Seq<char>, registered: bool) -> Option<
    Seq<char>,
> {
    if registered {
        Some(new)
    } else {
        old
    }
}

/// The accelerator currently registered with the global-shortcut plugin.
pub struct HotkeyBinding {
    pub current: Option<String>,
}

impl HotkeyBinding {
    /// Nothing bound yet.
    pub fn new() -> (r: HotkeyBinding)
        ensures
            r.current is None,
    {
        HotkeyBinding { current: None }
    }

    /// Start rebinding to an accelerator that parses (`new_parses`) or not:
    /// an unparsable one is refused with `"invalid"`; otherwise the current
    /// binding is released first.
    pub fn begin(&self, new_parses: bool) -> (r: RebindStart)
        ensures
            !new_parses ==> (r matches RebindStart::Refuse(e) && e@ == "invalid"@),
            new_parses ==> (r matches RebindStart::Proceed { unregister } && opt_text(unregister)
                == opt_text(self.current)),
    {
        if !new_parses {
            return RebindStart::Refuse("invalid".to_owned());
        }
        let unregister = match &self.current {
            Some(s) => Some(s.clone()),
            None => None,
        };
        RebindStart::Proceed { unregister }
    }

    /// Record the outcome of registering `new`: on success it is the
    /// binding; on failure the binding before is kept and is to be
    /// registered again.
    pub fn finish(&mut self, new: &str, registered: Result<(), String>) -> (r: RebindEnd)
        ensures
            opt_text(final(self).current) == binding_after(
                opt_text(old(self).current),
                new@,
                registered is Ok,
            ),
            registered is Ok ==> r is Done,
            registered matches Err(e) ==> (r matches RebindEnd::Failed { restore, error }
                && opt_text(restore) == opt_text(old(self).current) && error@ == e@),
    {
        match registered {
            Ok(()) => {
                self.current = Some(new.to_owned());
                RebindEnd::Done
            },
            Err(e) => {
                let restore = match &self.current {
                    Some(s) => Some(s.clone()),
                    None => None,
                };
                RebindEnd::Failed { restore, error: e }
            },
        }
    }
}

/// A rebind that fails part-way leaves the binding as it was, and what is
/// registered again is that binding; a successful one binds the new
/// accelerator.
pub proof fn law_failed_rebind_restores(old: Option<Seq<char>>, new: Seq<char>)
    ensures
        binding_after(old, new, false) == old,
        binding_after(old, new, true) == Some(new),
{
}

} // verus!
