//! The layout of a prompt, and how a field inherits it from its container.
//!
//! A prompt for a written value reads
//! `<chip><message>[ (<hints>)]{\n}<prefix>`, and the line of a selectable
//! option reads `<number><chip><label>`, followed after the last option by
//! `<suffix>`. Between a number and a label stands `" - "` unless a chip
//! was set. Each property of a format is either set by its owner or left
//! open; merging fills what a field left open from the format of its
//! container.

use vstd::prelude::*;

verus! {

/// The layout rules of a field, with a mark on each rule that its owner set.
#[derive(Clone, Copy, Debug)]
pub struct ValueFieldFormatting<'a> {
    /// The text before the message of a written field (`"--> "` unless set),
    /// and, where it was set, between the number and the label of an option.
    pub chip: &'a str,
    /// The text before the answer to a written field (`">> "` unless set).
    pub prefix: &'a str,
    /// The text before the answer to a selection (`">> "` unless set).
    pub suffix: &'a str,
    /// Whether the answer starts on a line of its own (it does unless set).
    pub line_break: bool,
    /// Whether the default is shown beside the message (it is unless set).
    pub show_default: bool,
    /// Whether `chip` was set by the owner of this format.
    pub custom_chip: bool,
    /// Whether `prefix` was set by the owner of this format.
    pub custom_prefix: bool,
    /// Whether `suffix` was set by the owner of this format.
    pub custom_suffix: bool,
    /// Whether `line_break` was set by the owner of this format.
    pub custom_line_break: bool,
    /// Whether `show_default` was set by the owner of this format.
    pub custom_show_default: bool,
}

impl<'a> ValueFieldFormatting<'a> {
    /// The format in which nothing is set.
    pub open spec fn plain() -> Self {
        ValueFieldFormatting {
            chip: "--> ",
            prefix: ">> ",
            suffix: ">> ",
            line_break: true,
            show_default: true,
            custom_chip: false,
            custom_prefix: false,
            custom_suffix: false,
            custom_line_break: false,
            custom_show_default: false,
        }
    }

    /// Whether every rule of this format was set by its owner.
    pub open spec fn fully_custom(self) -> bool {
        self.custom_chip && self.custom_prefix && self.custom_suffix && self.custom_line_break
            && self.custom_show_default
    }

    /// This format with what it leaves open taken from `parent`: each rule
    /// is this format's where it set the rule, else the parent's, and counts
    /// as set where either of the two set it.
    pub open spec fn merged_with(self, parent: Self) -> Self {
        ValueFieldFormatting {
            chip: if self.custom_chip {
                self.chip
            } else {
                parent.chip
            },
            prefix: if self.custom_prefix {
                self.prefix
            } else {
                parent.prefix
            },
            suffix: if self.custom_suffix {
                self.suffix
            } else {
                parent.suffix
            },
            line_break: if self.custom_line_break {
                self.line_break
            } else {
                parent.line_break
            },
            show_default: if self.custom_show_default {
                self.show_default
            } else {
                parent.show_default
            },
            custom_chip: self.custom_chip || parent.custom_chip,
            custom_prefix: self.custom_prefix || parent.custom_prefix,
            custom_suffix: self.custom_suffix || parent.custom_suffix,
            custom_line_break: self.custom_line_break || parent.custom_line_break,
            custom_show_default: self.custom_show_default || parent.custom_show_default,
        }
    }

    /// The format that sets the chip and leaves the rest open.
    pub fn chip(chip: &'a str) -> (r: Self)
        ensures
            r == (ValueFieldFormatting { chip, custom_chip: true, ..Self::plain() }),
    {
        let mut r = Self::default();
        r.chip = chip;
        r.custom_chip = true;
        r
    }

    /// The format that sets the prefix and leaves the rest open.
    pub fn prefix(prefix: &'a str) -> (r: Self)
        ensures
            r == (ValueFieldFormatting { prefix, custom_prefix: true, ..Self::plain() }),
    {
        let mut r = Self::default();
        r.prefix = prefix;
        r.custom_prefix = true;
        r
    }

    /// The format that sets the suffix and leaves the rest open.
    pub fn suffix(suffix: &'a str) -> (r: Self)
        ensures
            r == (ValueFieldFormatting { suffix, custom_suffix: true, ..Self::plain() }),
    {
        let mut r = Self::default();
        r.suffix = suffix;
        r.custom_suffix = true;
        r
    }

    /// The format that sets whether the answer starts on a line of its own,
    /// and leaves the rest open.
    pub fn line_break(line_break: bool) -> (r: Self)
        ensures
            r == (ValueFieldFormatting { line_break, custom_line_break: true, ..Self::plain() }),
    {
        let mut r = Self::default();
        r.line_break = line_break;
        r.custom_line_break = true;
        r
    }

    /// The format that sets whether the default is shown, and leaves the
    /// rest open.
    pub fn show_default(show_default: bool) -> (r: Self)
        ensures
            r == (ValueFieldFormatting {
                show_default,
                custom_show_default: true,
                ..Self::plain()
            }),
    {
        let mut r = Self::default();
        r.show_default = show_default;
        r.custom_show_default = true;
        r
    }

    /// The text between the number and the label of an option: the chip
    /// where the owner of this format set it, else `" - "`.
    pub open spec fn option_chip(self) -> &'a str {
        if self.custom_chip {
            self.chip
        } else {
            " - "
        }
    }

    /// The text between the number and the label of an option.
    pub fn chip_of_option(&self) -> (r: &'a str)
        ensures
            r == self.option_chip(),
    {
        if self.custom_chip {
            self.chip
        } else {
            " - "
        }
    }

    /// This format with what it leaves open taken from `parent`.
    pub fn merged(&self, parent: &ValueFieldFormatting<'a>) -> (r: Self)
        ensures
            r == self.merged_with(*parent),
    {
        ValueFieldFormatting {
            chip: if self.custom_chip {
                self.chip
            } else {
                parent.chip
            },
            prefix: if self.custom_prefix {
                self.prefix
            } else {
                parent.prefix
            },
            suffix: if self.custom_suffix {
                self.suffix
            } else {
                parent.suffix
            },
            line_break: if self.custom_line_break {
                self.line_break
            } else {
                parent.line_break
            },
            show_default: if self.custom_show_default {
                self.show_default
            } else {
                parent.show_default
            },
            custom_chip: self.custom_chip || parent.custom_chip,
            custom_prefix: self.custom_prefix || parent.custom_prefix,
            custom_suffix: self.custom_suffix || parent.custom_suffix,
            custom_line_break: self.custom_line_break || parent.custom_line_break,
            custom_show_default: self.custom_show_default || parent.custom_show_default,
        }
    }

    /// Merging a format with itself changes nothing.
    pub proof fn lemma_merge_idempotent(self)
        ensures
            self.merged_with(self) == self,
    {
    }

    /// A format that sets every rule takes nothing from any parent.
    pub proof fn lemma_merge_fully_custom(self, parent: Self)
        requires
            self.fully_custom(),
        ensures
            self.merged_with(parent) == self,
    {
    }

    /// A format that sets nothing takes every rule from its parent.
    pub proof fn lemma_merge_plain(parent: Self)
        ensures
            Self::plain().merged_with(parent) == parent,
    {
    }

    /// Inheriting through several levels gives the same format in whatever
    /// order the levels are merged.
    pub proof fn lemma_merge_associative(self, middle: Self, outer: Self)
        ensures
            self.merged_with(middle).merged_with(outer) == self.merged_with(
                middle.merged_with(outer),
            ),
    {
    }
}

impl<'a> Default for ValueFieldFormatting<'a> {
    /// The format in which nothing is set.
    fn default() -> (r: Self)
        ensures
            r == Self::plain(),
    {
        ValueFieldFormatting {
            chip: "--> ",
            prefix: ">> ",
            suffix: ">> ",
            line_break: true,
            show_default: true,
            custom_chip: false,
            custom_prefix: false,
            custom_suffix: false,
            custom_line_break: false,
            custom_show_default: false,
        }
    }
}

} // verus!
