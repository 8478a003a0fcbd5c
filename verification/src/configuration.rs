//! The description of one managed process.

use vstd::prelude::*;

verus! {

/// How one managed process is launched: a display name, the executable and
/// the arguments handed to it, in order.
#[derive(Debug)]
pub struct Configuration {
    pub name: String,
    pub command: String,
    pub arguments: Vec<String>,
}

/// The mathematical value of a [`Configuration`].
pub struct ConfigurationView {
    pub name: Seq<char>,
    pub command: Seq<char>,
    pub arguments: Seq<Seq<char>>,
}

impl View for Configuration {
    type V = ConfigurationView;

    open spec fn view(&self) -> ConfigurationView {
        ConfigurationView {
            name: self.name@,
            command: self.command@,
            arguments: self.arguments.deep_view(),
        }
    }
}

impl DeepView for Configuration {
    type V = ConfigurationView;

    open spec fn deep_view(&self) -> ConfigurationView {
        self@
    }
}

/// Copies a list of strings, text for text.
pub fn copy_strings(source: &Vec<String>) -> (copy: Vec<String>)
    ensures
        copy.deep_view() == source.deep_view(),
{
    let mut copy: Vec<String> = Vec::new();
    let mut i: usize = 0;
    while i < source.len()
        invariant
            i <= source.len(),
            copy.len() == i,
            forall|k: int| 0 <= k < i ==> copy[k]@ == source[k]@,
        decreases source.len() - i,
    {
        copy.push(source[i].clone());
        i += 1;
    }
    assert(copy.deep_view() =~= source.deep_view());
    copy
}

impl Configuration {
    /// A configuration with the given name, executable and arguments.
    pub fn new(name: String, command: String, arguments: Vec<String>) -> (config: Configuration)
        ensures
            config@.name == name@,
            config@.command == command@,
            config@.arguments == arguments.deep_view(),
    {
        Configuration { name, command, arguments }
    }
}

impl Clone for Configuration {
    fn clone(&self) -> (copy: Configuration)
        ensures
            copy@ == self@,
    {
        Configuration {
            name: self.name.clone(),
            command: self.command.clone(),
            arguments: copy_strings(&self.arguments),
        }
    }
}

} // verus!
