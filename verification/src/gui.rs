//! Credentials for a graphical session inside a VM.

use vstd::prelude::*;

verus! {

#[derive(Debug)]
pub struct ConfigGui {
    pub user: String,
    pub passwd: String,
}

/// The mathematical model of a `ConfigGui`.
pub struct ConfigGuiV {
    pub user: Seq<char>,
    pub passwd: Seq<char>,
}

impl View for ConfigGui {
    type V = ConfigGuiV;

    open spec fn view(&self) -> ConfigGuiV {
        ConfigGuiV { user: self.user@, passwd: self.passwd@ }
    }
}

impl DeepView for ConfigGui {
    type V = ConfigGuiV;

    open spec fn deep_view(&self) -> ConfigGuiV {
        self@
    }
}

impl Clone for ConfigGui {
    fn clone(&self) -> (r: Self)
        ensures
            r@ == self@,
    {
        ConfigGui { user: self.user.clone(), passwd: self.passwd.clone() }
    }
}

/// Clones an optional `ConfigGui`; the model is preserved.
pub fn clone_opt_gui(o: &Option<ConfigGui>) -> (r: Option<ConfigGui>)
    ensures
        r.deep_view() == o.deep_view(),
{
    match o {
        None => None,
        Some(g) => Some(g.clone()),
    }
}

} // verus!
