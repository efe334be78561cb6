//! The choices with which a machine is set up.

use crate::enums::store_type::StoreType;
use crate::to::to_dtos::to_add_dto::or_empty;
use crate::to_ticket::to_ticket_struct::{clone_option, option_view};
use crate::utils::id_generator::{generate_id, is_fresh_id};
use vstd::prelude::*;

verus! {

/// The choices as plain values.
pub struct MachineOptionView {
    pub use_random_file_name: bool,
    pub store_file_name: Option<Seq<char>>,
    pub store_info: Option<Seq<char>>,
    pub store_type: StoreType,
}

/// How a machine names and describes its store.
#[derive(Debug)]
pub struct ToMachineOption {
    /// Give the store file a random name.
    pub use_random_file_name: bool,
    /// The name of the store file, where it is not `_to_store.db`.
    pub store_file_name: Option<String>,
    /// What the store is for.
    pub store_info: Option<String>,
    pub store_type: StoreType,
}

impl View for ToMachineOption {
    type V = MachineOptionView;

    open spec fn view(&self) -> MachineOptionView {
        MachineOptionView {
            use_random_file_name: self.use_random_file_name,
            store_file_name: option_view(self.store_file_name),
            store_info: option_view(self.store_info),
            store_type: self.store_type,
        }
    }
}

impl MachineOptionView {
    /// An SQLite store under the usual name, described as `A TO Store`.
    pub open spec fn standard() -> MachineOptionView {
        MachineOptionView {
            use_random_file_name: false,
            store_file_name: None,
            store_info: Some("A TO Store"@),
            store_type: StoreType::SQLITE,
        }
    }
}

impl Clone for ToMachineOption {
    fn clone(&self) -> (copy: Self)
        ensures
            copy@ == self@,
    {
        ToMachineOption {
            use_random_file_name: self.use_random_file_name,
            store_file_name: clone_option(&self.store_file_name),
            store_info: clone_option(&self.store_info),
            store_type: self.store_type,
        }
    }
}

impl Default for ToMachineOption {
    fn default() -> (option: Self)
        ensures
            option@ == MachineOptionView::standard(),
    {
        ToMachineOption {
            use_random_file_name: false,
            store_file_name: None,
            store_info: Some("A TO Store".to_owned()),
            store_type: StoreType::SQLITE,
        }
    }
}

/// The view of an optional set of choices.
pub open spec fn choices_view(input: Option<ToMachineOption>) -> Option<MachineOptionView> {
    match input {
        Some(option) => Some(option@),
        None => None,
    }
}

/// The name of the store file under the given choices, where `random_name`
/// is the name to take where a random one is asked for: the random name,
/// else the name that the choices give, else `_to_store.db`.
pub open spec fn file_name_under(input: Option<MachineOptionView>, random_name: Seq<char>) -> Seq<
    char,
> {
    match input {
        Some(option) => if option.use_random_file_name {
            random_name
        } else {
            match option.store_file_name {
                Some(name) => name,
                None => "_to_store.db"@,
            }
        },
        None => "_to_store.db"@,
    }
}

/// The description of the store under the given choices: what they say, or
/// nothing; without choices, `A TO Store`.
pub open spec fn store_info_under(input: Option<MachineOptionView>) -> Seq<char> {
    match input {
        Some(option) => or_empty(option.store_info),
        None => "A TO Store"@,
    }
}

impl ToMachineOption {
    /// The standard choices.
    pub fn new() -> (option: Self)
        ensures
            option@ == MachineOptionView::standard(),
    {
        ToMachineOption::default()
    }

    /// These choices with the given name for the store file.
    pub fn set_store_file_name(&self, file_name: Option<&str>) -> (option: ToMachineOption)
        ensures
            option@ == (MachineOptionView {
                store_file_name: match file_name {
                    Some(name) => Some(name@),
                    None => None,
                },
                ..self@
            }),
    {
        ToMachineOption {
            use_random_file_name: self.use_random_file_name,
            store_file_name: match file_name {
                Some(name) => Some(name.to_owned()),
                None => None,
            },
            store_info: clone_option(&self.store_info),
            store_type: self.store_type,
        }
    }

    /// The name of the store file under the given choices, with
    /// `random_name` for the random name.
    pub fn store_file_name_with(input_opt: &Option<ToMachineOption>, random_name: String) -> (name:
        String)
        ensures
            name@ == file_name_under(choices_view(*input_opt), random_name@),
    {
        match input_opt {
            Some(opt) => {
                if opt.use_random_file_name {
                    random_name
                } else {
                    match &opt.store_file_name {
                        Some(name) => name.clone(),
                        None => "_to_store.db".to_owned(),
                    }
                }
            },
            None => "_to_store.db".to_owned(),
        }
    }

    /// The name of the store file under the given choices. A random name is
    /// a fresh id of five characters.
    pub fn store_file_name_for(input_opt: &Option<ToMachineOption>) -> (name: String)
        ensures
            exists|random_name: Seq<char>|
                is_fresh_id(random_name, 5) && name@ == #[trigger] file_name_under(
                    choices_view(*input_opt),
                    random_name,
                ),
    {
        let random_name = generate_id();
        let ghost random = random_name@;
        let name = ToMachineOption::store_file_name_with(input_opt, random_name);
        assert(name@ == file_name_under(choices_view(*input_opt), random));
        name
    }

    /// The description of the store under the given choices.
    pub fn store_info_for(input_opt: &Option<ToMachineOption>) -> (info: String)
        ensures
            info@ == store_info_under(choices_view(*input_opt)),
    {
        match input_opt {
            Some(opt) => match &opt.store_info {
                Some(info) => info.clone(),
                None => String::new(),
            },
            None => "A TO Store".to_owned(),
        }
    }
}

} // verus!
