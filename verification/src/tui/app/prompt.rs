//! Completion at the prompt.

use vstd::prelude::*;
use vstd::string::*;

use super::rows::{cron_ids, ids_of_crons, ids_of_jobs, job_ids};
use super::state::{AppModel, AppState, Effect, EffectModel};
use crate::text;
use crate::text::Text;
use crate::tui::completion::{
    bare_candidates, bare_completion_candidates, beginning_with, builtin_candidates,
    builtin_command_candidates, command_candidates, completion_replacement, completion_source,
    entry_candidates, keep_beginning_with, path_candidates, path_completion_context,
    prompt_context, replacement_of, source_of, CommandEntry, CompletionSource, ContextModel,
    DirectoryEntry, PathContext, SourceModel,
};
use crate::tui::lines::no_lines;

verus! {

pub open spec fn takes_job(command: Text) -> bool {
    command == ":out"@ || command == ":err"@ || command == ":tail"@ || command == ":retry"@
        || command == ":fg"@ || command == ":wait"@ || command == ":send"@
}

pub open spec fn takes_any(command: Text) -> bool {
    command == ":kill"@ || command == ":cancel"@ || command == ":pause"@ || command == ":resume"@
        || command == ":log"@
}

impl AppModel {
    /// What a command takes.
    pub open spec fn command_ids(self, command: Text) -> Seq<Text> {
        if takes_job(command) {
            job_ids(self.jobs)
        } else if takes_any(command) {
            job_ids(self.jobs) + cron_ids(self.crons)
        } else {
            Seq::empty()
        }
    }

    /// The candidates for a line with a colon.
    pub open spec fn colon_candidates(self, line: Text, word: Text) -> Seq<Text> {
        let tokens = text::words(text::trim_start(line));
        if tokens.len() == 0 || (text::starts_with(word, ":"@) && tokens.len() <= 1) {
            builtin_candidates(word)
        } else {
            beginning_with(self.command_ids(tokens[0]), word)
        }
    }

    /// With the word at the cursor completed as far as the candidates agree.
    pub open spec fn completed(self, candidates: Seq<Text>) -> AppModel {
        match replacement_of(candidates, self.input.word()) {
            Some(t) => AppModel {
                input: self.input.replaced(
                    self.input.word_range().0,
                    self.input.word_range().1,
                    t,
                ),
                ..self
            },
            None => self,
        }
    }

    pub open spec fn word_context(self) -> ContextModel {
        prompt_context(
            self.input.word(),
            match self.home {
                Some(h) => h,
                None => Seq::empty(),
            },
            self.current_dir,
        )
    }

    /// With the word at the cursor completed, or the directory asked for that
    /// holds the candidates.
    #[verifier::opaque]
    pub open spec fn completing(self) -> AppModel {
        let line = self.input.line_prefix();
        let word = self.input.word();
        if text::starts_with(text::trim_start(line), ":"@) {
            self.completed(self.colon_candidates(line, word))
        } else {
            match source_of(self.mode, line, word) {
                SourceModel::Words(w) => self.completed(w),
                SourceModel::Files { commands } => self.with_effect(
                    EffectModel::ListDirectory {
                        base_dir: self.word_context().base_dir,
                        commands,
                    },
                ),
            }
        }
    }

    /// With the word at the cursor completed from what a directory holds.
    #[verifier::opaque]
    pub open spec fn listed(self, entries: Seq<DirectoryEntry>, commands: Seq<CommandEntry>) -> AppModel {
        let word = self.input.word();
        let context = self.word_context();
        let candidates = bare_candidates(
            source_of(self.mode, self.input.line_prefix(), word),
            Ok(path_candidates(entries, context.partial, context.display_prefix)),
            command_candidates(commands, word),
        );
        self.completed(candidates->Ok_0)
    }
}

impl AppState {
    fn apply_completion(&mut self, candidates: &Vec<String>, word: &str)
        requires
            old(self).wf(),
            word@ == old(self)@.input.word(),
        ensures
            final(self).wf(),
            final(self)@ == old(self)@.completed(text::texts(candidates@)),
    {
        if let Some(t) = completion_replacement(candidates, word) {
            self.input.replace_word(t.as_str());
        }
    }

    fn colon_completion_candidates(&self, line: &str, word: &str) -> (r: Vec<String>)
        ensures
            text::texts(r@) == self@.colon_candidates(line@, word@),
    {
        let tokens = text::chars_words(&text::chars_trim_start(&text::chars_of(line)));
        assert(text::texts(tokens@).len() == tokens@.len());
        if tokens.len() == 0 || (text::str_starts_with(word, ":") && tokens.len() <= 1) {
            return builtin_command_candidates(word);
        }
        assert(text::texts(tokens@)[0] == tokens@[0]@);
        let command = tokens[0].as_str();
        let ids = if text::str_eq(command, ":out") || text::str_eq(command, ":err") || text::str_eq(command, ":tail")
            || text::str_eq(command, ":retry") || text::str_eq(command, ":fg") || text::str_eq(command, ":wait")
            || text::str_eq(command, ":send") {
            ids_of_jobs(&self.jobs)
        } else if text::str_eq(command, ":kill") || text::str_eq(command, ":cancel") || text::str_eq(
            command,
            ":pause",
        ) || text::str_eq(command, ":resume") || text::str_eq(command, ":log") {
            let mut ids = ids_of_jobs(&self.jobs);
            let mut more = ids_of_crons(&self.crons);
            let ghost a = text::texts(ids@);
            let ghost b = text::texts(more@);
            ids.append(&mut more);
            assert(text::texts(ids@) =~= a + b);
            ids
        } else {
            no_lines()
        };
        keep_beginning_with(&ids, word)
    }

    fn completion_context(&self, word: &str) -> (r: PathContext)
        requires
            word@ == self@.input.word(),
        ensures
            r@ == self@.word_context(),
    {
        let empty = String::new();
        assert(empty@ =~= Seq::<char>::empty());
        let home = match &self.home {
            Some(h) => h.as_str(),
            None => empty.as_str(),
        };
        path_completion_context(word, home, self.current_dir.as_str())
    }

    /// Completes the word at the cursor, or asks for the directory that holds
    /// the candidates.
    pub(crate) fn complete_input(&mut self)
        requires
            old(self).wf(),
        ensures
            final(self).wf(),
            final(self)@ == old(self)@.completing(),
    {
        proof {
            reveal(AppModel::completing);
        }
        let (line, word) = self.input.completion_parts();
        let trimmed = text::chars_trim_start(&text::chars_of(line.as_str()));
        if text::chars_at(&trimmed, 0, ":") {
            let candidates = self.colon_completion_candidates(line.as_str(), word.as_str());
            self.apply_completion(&candidates, word.as_str());
            return;
        }
        match completion_source(self.mode, line.as_str(), word.as_str()) {
            CompletionSource::Words(w) => self.apply_completion(&w, word.as_str()),
            CompletionSource::Files { commands } => {
                let context = self.completion_context(word.as_str());
                self.push_effect(Effect::ListDirectory { base_dir: context.base_dir, commands });
            },
        }
    }

    /// Completes the word at the cursor from what a directory holds.
    pub(crate) fn complete_from_directory(
        &mut self,
        entries: &Vec<DirectoryEntry>,
        commands: &Vec<CommandEntry>,
    )
        requires
            old(self).wf(),
        ensures
            final(self).wf(),
            final(self)@ == old(self)@.listed(entries@, commands@),
    {
        proof {
            reveal(AppModel::listed);
        }
        let (line, word) = self.input.completion_parts();
        let context = self.completion_context(word.as_str());
        let paths = entry_candidates(entries, &context);
        let candidates = bare_completion_candidates(
            self.mode,
            line.as_str(),
            word.as_str(),
            Ok(paths),
            commands,
        );
        if let Ok(c) = candidates {
            self.apply_completion(&c, word.as_str());
        }
    }
}

} // verus!
