//! The closed set of commit types and the option texts they are offered under.

use crate::text::{
    chars_of, find_char, find_from, is_whitespace, lemma_find_char, lemma_trim_end_takes,
    lemma_trim_start_skips, trim_span, trimmed,
};
use vstd::prelude::*;

verus! {

/// How many commit types there are.
pub const TYPE_COUNT: usize = 11;

/// The kind of change that a commit records.
#[derive(Clone, Copy, Debug, PartialEq, Eq, Structural)]
pub enum CommitType {
    Feat,
    Fix,
    Docs,
    Style,
    Refactor,
    Perf,
    Test,
    Build,
    Ci,
    Chore,
    Revert,
}

impl CommitType {
    /// The tag that stands for this type at the start of a title.
    pub open spec fn tag_text(self) -> Seq<char> {
        match self {
            CommitType::Feat => "feat"@,
            CommitType::Fix => "fix"@,
            CommitType::Docs => "docs"@,
            CommitType::Style => "style"@,
            CommitType::Refactor => "refactor"@,
            CommitType::Perf => "perf"@,
            CommitType::Test => "test"@,
            CommitType::Build => "build"@,
            CommitType::Ci => "ci"@,
            CommitType::Chore => "chore"@,
            CommitType::Revert => "revert"@,
        }
    }

    /// What this type is for, in words.
    pub open spec fn description_text(self) -> Seq<char> {
        match self {
            CommitType::Feat => "新功能 (A new feature)"@,
            CommitType::Fix => "修复bug (A bug fix)"@,
            CommitType::Docs => "文档更新 (Documentation only changes)"@,
            CommitType::Style => "代码格式 (Changes that do not affect the meaning of the code)"@,
            CommitType::Refactor => "重构 (A code change that neither fixes a bug nor adds a feature)"@,
            CommitType::Perf => "性能优化 (A code change that improves performance)"@,
            CommitType::Test => "测试 (Adding missing tests or correcting existing tests)"@,
            CommitType::Build => "构建系统 (Changes that affect the build system or external dependencies)"@,
            CommitType::Ci => "CI配置 (Changes to our CI configuration files and scripts)"@,
            CommitType::Chore => "其他杂务 (Other changes that don't modify src or test files)"@,
            CommitType::Revert => "回滚 (Reverts a previous commit)"@,
        }
    }

    /// The place of this type in the list that is offered, from 0.
    pub open spec fn position(self) -> int {
        match self {
            CommitType::Feat => 0,
            CommitType::Fix => 1,
            CommitType::Docs => 2,
            CommitType::Style => 3,
            CommitType::Refactor => 4,
            CommitType::Perf => 5,
            CommitType::Test => 6,
            CommitType::Build => 7,
            CommitType::Ci => 8,
            CommitType::Chore => 9,
            CommitType::Revert => 10,
        }
    }

    /// The type at place `index` of the list, if there is one.
    pub open spec fn at(index: int) -> Option<CommitType> {
        if index == 0 {
            Some(CommitType::Feat)
        } else if index == 1 {
            Some(CommitType::Fix)
        } else if index == 2 {
            Some(CommitType::Docs)
        } else if index == 3 {
            Some(CommitType::Style)
        } else if index == 4 {
            Some(CommitType::Refactor)
        } else if index == 5 {
            Some(CommitType::Perf)
        } else if index == 6 {
            Some(CommitType::Test)
        } else if index == 7 {
            Some(CommitType::Build)
        } else if index == 8 {
            Some(CommitType::Ci)
        } else if index == 9 {
            Some(CommitType::Chore)
        } else if index == 10 {
            Some(CommitType::Revert)
        } else {
            None
        }
    }

    /// The text under which this type is offered: tag, colon, space,
    /// description.
    pub open spec fn label_text(self) -> Seq<char> {
        self.tag_text() + ": "@ + self.description_text()
    }

    /// The tag that stands for this type at the start of a title.
    pub fn tag(self) -> (tag: &'static str)
        ensures
            tag@ == self.tag_text(),
    {
        match self {
            CommitType::Feat => "feat",
            CommitType::Fix => "fix",
            CommitType::Docs => "docs",
            CommitType::Style => "style",
            CommitType::Refactor => "refactor",
            CommitType::Perf => "perf",
            CommitType::Test => "test",
            CommitType::Build => "build",
            CommitType::Ci => "ci",
            CommitType::Chore => "chore",
            CommitType::Revert => "revert",
        }
    }

    /// What this type is for, in words.
    pub fn description(self) -> (description: &'static str)
        ensures
            description@ == self.description_text(),
    {
        match self {
            CommitType::Feat => "新功能 (A new feature)",
            CommitType::Fix => "修复bug (A bug fix)",
            CommitType::Docs => "文档更新 (Documentation only changes)",
            CommitType::Style => "代码格式 (Changes that do not affect the meaning of the code)",
            CommitType::Refactor => "重构 (A code change that neither fixes a bug nor adds a feature)",
            CommitType::Perf => "性能优化 (A code change that improves performance)",
            CommitType::Test => "测试 (Adding missing tests or correcting existing tests)",
            CommitType::Build => "构建系统 (Changes that affect the build system or external dependencies)",
            CommitType::Ci => "CI配置 (Changes to our CI configuration files and scripts)",
            CommitType::Chore => "其他杂务 (Other changes that don't modify src or test files)",
            CommitType::Revert => "回滚 (Reverts a previous commit)",
        }
    }

    /// The place of this type in the list that is offered, from 0.
    pub fn index(self) -> (index: usize)
        ensures
            index == self.position(),
            index < TYPE_COUNT,
            CommitType::at(index as int) == Some(self),
    {
        match self {
            CommitType::Feat => 0,
            CommitType::Fix => 1,
            CommitType::Docs => 2,
            CommitType::Style => 3,
            CommitType::Refactor => 4,
            CommitType::Perf => 5,
            CommitType::Test => 6,
            CommitType::Build => 7,
            CommitType::Ci => 8,
            CommitType::Chore => 9,
            CommitType::Revert => 10,
        }
    }

    /// The type at place `index` of the list: there is one for each index
    /// below `TYPE_COUNT`, and none beyond.
    pub fn from_index(index: usize) -> (found: Option<CommitType>)
        ensures
            found == CommitType::at(index as int),
            found is Some <==> index < TYPE_COUNT,
            found matches Some(commit_type) ==> commit_type.position() == index,
    {
        if index == 0 {
            Some(CommitType::Feat)
        } else if index == 1 {
            Some(CommitType::Fix)
        } else if index == 2 {
            Some(CommitType::Docs)
        } else if index == 3 {
            Some(CommitType::Style)
        } else if index == 4 {
            Some(CommitType::Refactor)
        } else if index == 5 {
            Some(CommitType::Perf)
        } else if index == 6 {
            Some(CommitType::Test)
        } else if index == 7 {
            Some(CommitType::Build)
        } else if index == 8 {
            Some(CommitType::Ci)
        } else if index == 9 {
            Some(CommitType::Chore)
        } else if index == 10 {
            Some(CommitType::Revert)
        } else {
            None
        }
    }

    /// The text under which this type is offered.
    pub fn label(self) -> (label: String)
        ensures
            label@ == self.label_text(),
    {
        let mut label = String::from_str(self.tag());
        label.append(": ");
        label.append(self.description());
        label
    }
}

/// The text offered at place `index` of the list.
pub open spec fn option_text(index: int) -> Seq<char> {
    match CommitType::at(index) {
        Some(commit_type) => commit_type.label_text(),
        None => Seq::empty(),
    }
}

/// The texts of all types, in the order in which they are offered.
pub fn type_options() -> (options: Vec<String>)
    ensures
        options@.len() == TYPE_COUNT,
        forall|i: int| 0 <= i < TYPE_COUNT ==> (#[trigger] options@[i])@ == option_text(i),
{
    let mut options: Vec<String> = Vec::new();
    let mut index: usize = 0;
    while index < TYPE_COUNT
        invariant
            index <= TYPE_COUNT,
            options@.len() == index,
            forall|i: int| 0 <= i < index ==> (#[trigger] options@[i])@ == option_text(i),
        decreases TYPE_COUNT - index,
    {
        match CommitType::from_index(index) {
            Some(commit_type) => {
                options.push(commit_type.label());
            },
            None => {},
        }
        index += 1;
    }
    options
}

/// The tag that an option text starts with: what stands before its first
/// colon, trimmed.
pub open spec fn selected_tag_text(selection: Seq<char>) -> Seq<char> {
    trimmed(selection.take(find_char(selection, ':')))
}

/// A text that starts and ends with something other than white space, and
/// holds no colon, is read back from any option text that it heads.
proof fn lemma_tag_read_back(tag: Seq<char>, rest: Seq<char>)
    requires
        tag.len() > 0,
        !is_whitespace(tag[0]),
        !is_whitespace(tag.last()),
        forall|i: int| 0 <= i < tag.len() ==> #[trigger] tag[i] != ':',
    ensures
        selected_tag_text(tag + ": "@ + rest) == tag,
{
    reveal_strlit(": ");
    let option = tag + ": "@ + rest;
    let n = tag.len() as int;
    assert(option[n] == ": "@[0]);
    assert forall|i: int| 0 <= i < n implies #[trigger] option[i] != ':' by {
        assert(option[i] == tag[i]);
    }
    lemma_find_char(option, ':', n);
    assert(option.take(n) =~= tag);
    lemma_trim_start_skips(tag, 0);
    assert(tag.skip(0) =~= tag);
    lemma_trim_end_takes(tag, n);
    assert(tag.take(n) =~= tag);
}

/// The tag read back from the text under which a type is offered is the
/// tag of that type.
pub proof fn lemma_label_starts_with_tag(commit_type: CommitType)
    ensures
        selected_tag_text(commit_type.label_text()) == commit_type.tag_text(),
{
    reveal_strlit("feat");
    reveal_strlit("fix");
    reveal_strlit("docs");
    reveal_strlit("style");
    reveal_strlit("refactor");
    reveal_strlit("perf");
    reveal_strlit("test");
    reveal_strlit("build");
    reveal_strlit("ci");
    reveal_strlit("chore");
    reveal_strlit("revert");
    lemma_tag_read_back(commit_type.tag_text(), commit_type.description_text());
}

/// The tag that the chosen option text starts with: what stands before its
/// first colon, or all of it where it has none, trimmed.
pub fn selected_tag(selection: &str) -> (tag: &str)
    ensures
        tag@ == selected_tag_text(selection@),
{
    let chars = chars_of(selection);
    assert(chars@.skip(0) =~= chars@);
    let colon = find_from(&chars, 0, ':');
    let (start, end) = trim_span(&chars, 0, colon);
    assert(chars@.subrange(0, colon as int) =~= selection@.take(colon as int));
    selection.substring_char(start, end)
}

} // verus!
