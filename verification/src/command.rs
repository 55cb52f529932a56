//! A command as it appears in a listing, and the order of a listing.

use crate::registry::ModuleDescriptor;
use crate::sorting::{strict_order, Ranked};
use crate::text::{
    lemma_text_order_equal, lemma_text_order_transitive, order_texts, text_order,
};
use std::cmp::Ordering;
use vstd::prelude::*;

verus! {

/// A command of a module, with the names that trigger it.
pub struct Command<'a> {
    pub module: &'a ModuleDescriptor,
    pub id: u32,
    pub names: &'a Vec<String>,
}

/// The ordering that a sign stands for.
pub open spec fn ordering_of(sign: int) -> Ordering {
    if sign < 0 {
        Ordering::Less
    } else if sign == 0 {
        Ordering::Equal
    } else {
        Ordering::Greater
    }
}

impl<'a> Command<'a> {
    /// The module of the command declares it.
    pub open spec fn declared(&self) -> bool {
        self.module.declares(self.id)
    }

    /// The command has a name, and its module declares it.
    pub open spec fn wf(&self) -> bool {
        self.names@.len() > 0 && self.declared()
    }

    /// The short description that the module gives for the command.
    pub open spec fn description(&self) -> Seq<char> {
        self.module.commands@[self.module.position_of(self.id)].description@
    }

    /// How two commands are ordered in a listing: by their first names,
    /// then by the names of their modules, then by their descriptions.
    pub open spec fn listing_order(&self, other: &Self) -> int {
        let by_name = text_order(self.names@[0]@, other.names@[0]@);
        let by_module = text_order(self.module.name@, other.module.name@);
        if by_name != 0 {
            by_name
        } else if by_module != 0 {
            by_module
        } else {
            text_order(self.description(), other.description())
        }
    }

    /// Orders two commands for a listing.
    pub fn cmp(&self, other: &Self) -> (res: Ordering)
        requires
            self.wf(),
            other.wf(),
        ensures
            res == ordering_of(self.listing_order(other)),
    {
        let by_name = order_texts(self.names[0].as_str(), other.names[0].as_str());
        if by_name < 0 {
            return Ordering::Less;
        }
        if by_name > 0 {
            return Ordering::Greater;
        }
        let by_module = order_texts(self.module.name().as_str(), other.module.name().as_str());
        if by_module < 0 {
            return Ordering::Less;
        }
        if by_module > 0 {
            return Ordering::Greater;
        }
        let by_description = order_texts(
            self.module.command_description(self.id).as_str(),
            other.module.command_description(other.id).as_str(),
        );
        if by_description < 0 {
            Ordering::Less
        } else if by_description > 0 {
            Ordering::Greater
        } else {
            Ordering::Equal
        }
    }
}

impl<'a> Ranked for Command<'a> {
    open spec fn rankable(&self) -> bool {
        self.wf()
    }

    open spec fn ranks_before(&self, other: &Self) -> bool {
        self.listing_order(other) < 0
    }

    fn is_before(&self, other: &Self) -> (b: bool) {
        match self.cmp(other) {
            Ordering::Less => true,
            _ => false,
        }
    }
}

/// The order of a listing is a strict order.
pub proof fn lemma_listing_strict_order<'a>()
    ensures
        strict_order::<Command<'a>>(),
{
    assert forall|a: Command<'a>| !#[trigger] a.ranks_before(&a) by {
        lemma_text_order_equal(a.names@[0]@, a.names@[0]@);
        lemma_text_order_equal(a.module.name@, a.module.name@);
        lemma_text_order_equal(a.description(), a.description());
    }
    assert forall|a: Command<'a>, b: Command<'a>, c: Command<'a>| #[trigger]
        a.ranks_before(&b) && #[trigger] b.ranks_before(&c) implies a.ranks_before(&c) by {
        lemma_text_order_equal(a.names@[0]@, b.names@[0]@);
        lemma_text_order_equal(b.names@[0]@, c.names@[0]@);
        lemma_text_order_equal(a.names@[0]@, c.names@[0]@);
        lemma_text_order_equal(a.module.name@, b.module.name@);
        lemma_text_order_equal(b.module.name@, c.module.name@);
        lemma_text_order_equal(a.module.name@, c.module.name@);
        lemma_text_order_transitive(a.names@[0]@, b.names@[0]@, c.names@[0]@);
        if text_order(a.names@[0]@, c.names@[0]@) == 0 {
            lemma_text_order_transitive(a.module.name@, b.module.name@, c.module.name@);
            if text_order(a.module.name@, c.module.name@) == 0 {
                lemma_text_order_transitive(a.description(), b.description(), c.description());
            }
        }
    }
}

} // verus!
