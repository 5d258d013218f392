use vstd::prelude::*;

use crate::executor::Executor;
use crate::options::{spec_lines_tokens, translate_options};
use crate::osc::{osc52_sequence, spec_osc52};
use crate::pane::{parse_pane_listing, spec_active_pane, SpecPane};
use crate::selection::{build_command, decode_selection, spec_command_line, spec_selection};
use crate::strutil::{
    fmt_i64, fmt_u64, join_spaces, spec_dec_int, spec_dec_nat, spec_join, spec_split,
};
use crate::SwapError;

verus! {

/// The fixed path where the picker leaves its selection.
pub const TMP_FILE: &'static str = "/tmp/thumbs-last";

/// The pane-listing query and its row format.
pub open spec fn spec_list_panes_args() -> Seq<Seq<char>> {
    seq![
        "tmux"@,
        "list-panes"@,
        "-F"@,
        "#{pane_id}:#{?pane_in_mode,1,0}:#{pane_height}:#{scroll_position}:#{?pane_active,active,nope}"@,
    ]
}

/// The global option dump query.
pub open spec fn spec_show_options_args() -> Seq<Seq<char>> {
    seq!["tmux"@, "show"@, "-g"@]
}

/// A detached named window running `cmd`, its pane handle printed back.
pub open spec fn spec_new_window_args(cmd: Seq<char>) -> Seq<Seq<char>> {
    seq!["tmux"@, "new-window"@, "-P"@, "-d"@, "-n"@, "[thumbs]"@, cmd]
}

/// The non-focus-stealing swap of panes `a` and `t`, in that order.
pub open spec fn spec_swap_args(a: Seq<char>, t: Seq<char>) -> Seq<Seq<char>> {
    seq!["tmux"@, "swap-pane"@, "-d"@, "-s"@, a, "-t"@, t]
}

/// The blocking wait on the rendezvous token `sig`.
pub open spec fn spec_wait_args(sig: Seq<char>) -> Seq<Seq<char>> {
    seq!["tmux"@, "wait-for"@, sig]
}

/// Reading the picker's result file.
pub open spec fn spec_cat_args() -> Seq<Seq<char>> {
    seq!["cat"@, TMP_FILE@]
}

/// Deleting the picker's result file.
pub open spec fn spec_rm_args() -> Seq<Seq<char>> {
    seq!["rm"@, TMP_FILE@]
}

/// Running the dispatched command line through a shell.
pub open spec fn spec_bash_args(cmd: Seq<char>) -> Seq<Seq<char>> {
    seq!["bash"@, "-c"@, cmd]
}

/// A rendezvous token: the fixed prefix followed by some number of
/// seconds written in decimal.
pub open spec fn spec_is_signal(s: Seq<char>) -> bool {
    exists|secs: int| 0 <= secs && s == "thumbs-finished-"@.add(spec_dec_nat(secs))
}

/// Relies on std::time::SystemTime::now and duration_since: the whole
/// seconds between the system clock and the Unix epoch, zero if the
/// clock reads earlier than the epoch. A clock reading, so nothing is
/// promised of the value.
#[verifier::external_body]
fn epoch_seconds() -> u64 {
    match std::time::SystemTime::now().duration_since(std::time::UNIX_EPOCH) {
        Ok(d) => d.as_secs(),
        Err(_) => 0,
    }
}

/// The orchestrator's state, built stage by stage: configuration fixed at
/// construction, then the probed pane, the picker's pane, and finally the
/// retrieved selection.
pub struct Swapper<E: Executor> {
    pub executor: E,
    pub dir: String,
    pub command: String,
    pub upcase_command: String,
    pub osc52: bool,
    pub active_pane_id: Option<String>,
    pub active_pane_height: Option<i32>,
    pub active_pane_scroll_position: Option<i32>,
    pub active_pane_in_copy_mode: Option<String>,
    pub thumbs_pane_id: Option<String>,
    pub content: Option<String>,
    pub signal: String,
}

impl<E: Executor> Swapper<E> {
    /// The probed pane fields as one record, present once the probe ran.
    pub open spec fn spec_pane(self) -> Option<SpecPane> {
        match (self.active_pane_id, self.active_pane_in_copy_mode) {
            (Some(id), Some(m)) => Some(
                SpecPane {
                    id: id@,
                    in_copy_mode: m@,
                    height: match self.active_pane_height {
                        Some(h) => Some(h as int),
                        None => None,
                    },
                    scroll_position: match self.active_pane_scroll_position {
                        Some(p) => Some(p as int),
                        None => None,
                    },
                },
            ),
            _ => None,
        }
    }

    /// The configuration handed in at construction is never touched again.
    pub open spec fn same_config(pre: Self, post: Self) -> bool {
        &&& post.dir == pre.dir
        &&& post.command == pre.command
        &&& post.upcase_command == pre.upcase_command
        &&& post.osc52 == pre.osc52
        &&& post.signal == pre.signal
    }

    /// The probe's outcome and its mark on the state: on a parseable
    /// listing the pane fields are exactly what the listing says; on a
    /// malformed one the error is handed back and the fields are left
    /// alone.
    pub open spec fn captured(pre: Self, post: Self, out: Seq<char>, r: Result<
        (),
        SwapError,
    >) -> bool {
        match spec_active_pane(out) {
            Ok(p) => r is Ok && post.spec_pane() == Some(p),
            Err(e) => {
                &&& r == Err::<(), SwapError>(e)
                &&& post.active_pane_id == pre.active_pane_id
                &&& post.active_pane_height == pre.active_pane_height
                &&& post.active_pane_scroll_position == pre.active_pane_scroll_position
                &&& post.active_pane_in_copy_mode == pre.active_pane_in_copy_mode
            },
        }
    }

    /// The scrollback capture range: present only for a probed copy-mode
    /// pane, spanning from `scroll_position` lines above the view to the
    /// line `height - scroll_position - 1`.
    pub open spec fn spec_scroll_params(self) -> Seq<char> {
        match (
            self.active_pane_in_copy_mode,
            self.active_pane_height,
            self.active_pane_scroll_position,
        ) {
            (Some(_m), Some(h), Some(p)) => " -S "@.add(spec_dec_int(-(p as int))).add(
                " -E "@,
            ).add(spec_dec_int(h as int - p as int - 1)),
            _ => ""@,
        }
    }

    /// The picker pipeline launched in the hidden window: capture the
    /// active pane (over the scroll range if any), feed the picker with
    /// the translated option tokens, then swap back and signal the
    /// rendezvous token.
    pub open spec fn spec_pane_command(self, tokens: Seq<Seq<char>>) -> Seq<char>
        recommends
            self.active_pane_id is Some,
    {
        let id = (self.active_pane_id->Some_0)@;
        "tmux capture-pane -t "@.add(id).add(" -p"@).add(self.spec_scroll_params()).add(
            " | "@,
        ).add(self.dir@).add("/target/release/thumbs -f '%U:%H' -t "@).add(TMP_FILE@).add(
            " "@,
        ).add(spec_join(tokens, " "@)).add("; tmux swap-pane -t "@).add(id).add(
            "; tmux wait-for -S "@,
        ).add(self.signal@)
    }

    /// The launcher's outcome: one option query, then one window
    /// creation whose command line is built from whatever options came
    /// back, the new window's printed handle stored.
    pub open spec fn thumbs_launched(
        pre: Self,
        post: Self,
        opts_out: Seq<char>,
        pane_out: Seq<char>,
    ) -> bool {
        let tokens = spec_lines_tokens(spec_split(opts_out, '\n'));
        let cmd = pre.spec_pane_command(tokens);
        &&& post.executor.history() == pre.executor.history().push(spec_show_options_args()).push(
            spec_new_window_args(cmd),
        )
        &&& post.thumbs_pane_id matches Some(t) && t@ == pane_out
    }

    /// Builds an orchestrator around `executor`: the configuration is
    /// stored as given, no pane is probed yet, and the rendezvous token
    /// is derived from the clock's seconds.
    pub fn new(
        executor: E,
        dir: String,
        command: String,
        upcase_command: String,
        osc52: bool,
    ) -> (r: Swapper<E>)
        ensures
            r.executor == executor,
            r.dir == dir,
            r.command == command,
            r.upcase_command == upcase_command,
            r.osc52 == osc52,
            r.active_pane_id is None,
            r.active_pane_height is None,
            r.active_pane_scroll_position is None,
            r.active_pane_in_copy_mode is None,
            r.thumbs_pane_id is None,
            r.content is None,
            spec_is_signal(r.signal@),
    {
        let secs = epoch_seconds();
        let mut signal = String::from_str("thumbs-finished-");
        let digits = fmt_u64(secs);
        signal.append(digits.as_str());
        proof {
            assert(0 <= secs as int && signal@ == "thumbs-finished-"@.add(
                spec_dec_nat(secs as int),
            ));
        }
        Swapper {
            executor,
            dir,
            command,
            upcase_command,
            osc52,
            active_pane_id: None,
            active_pane_height: None,
            active_pane_scroll_position: None,
            active_pane_in_copy_mode: None,
            thumbs_pane_id: None,
            content: None,
            signal,
        }
    }

    /// Probes the multiplexer for its panes and remembers the active one:
    /// the listing query runs exactly once, and the stored fields are
    /// `captured`'s reading of whatever listing came back.
    pub fn capture_active_pane(&mut self) -> (r: Result<(), SwapError>)
        ensures
            Self::same_config(*old(self), *final(self)),
            final(self).executor.history() == old(self).executor.history().push(
                spec_list_panes_args(),
            ),
            final(self).executor.emitted() == old(self).executor.emitted(),
            final(self).thumbs_pane_id == old(self).thumbs_pane_id,
            final(self).content == old(self).content,
            r is Ok ==> final(self).active_pane_id is Some
                && final(self).active_pane_in_copy_mode is Some,
            r is Ok ==> ((final(self).active_pane_height is Some)
                <==> (final(self).active_pane_in_copy_mode matches Some(m) && m@ == "1"@)),
            r is Ok ==> ((final(self).active_pane_scroll_position is Some)
                <==> (final(self).active_pane_in_copy_mode matches Some(m) && m@ == "1"@)),
            exists|out: Seq<char>| #[trigger] Self::captured(*old(self), *final(self), out, r),
    {
        let args = list_panes_args();
        let out = self.executor.execute(args);
        match parse_pane_listing(out.as_str()) {
            Ok(d) => {
                self.active_pane_id = Some(d.id);
                self.active_pane_in_copy_mode = Some(d.in_copy_mode);
                self.active_pane_height = d.height;
                self.active_pane_scroll_position = d.scroll_position;
                proof {
                    assert(self.spec_pane() matches Some(p) && p =~= spec_active_pane(
                        out@,
                    )->Ok_0);
                    assert(Self::captured(*old(self), *self, out@, Ok(())));
                }
                Ok(())
            },
            Err(e) => {
                proof {
                    assert(Self::captured(*old(self), *self, out@, Err(e)));
                }
                Err(e)
            },
        }
    }

    /// Queries the global options, translates them to picker flags, and
    /// launches the picker pipeline in a new hidden window, as
    /// `thumbs_launched` describes.
    pub fn execute_thumbs(&mut self)
        requires
            old(self).active_pane_id is Some,
        ensures
            Self::same_config(*old(self), *final(self)),
            final(self).executor.emitted() == old(self).executor.emitted(),
            final(self).active_pane_id == old(self).active_pane_id,
            final(self).active_pane_height == old(self).active_pane_height,
            final(self).active_pane_scroll_position == old(self).active_pane_scroll_position,
            final(self).active_pane_in_copy_mode == old(self).active_pane_in_copy_mode,
            final(self).content == old(self).content,
            final(self).thumbs_pane_id is Some,
            exists|opts_out: Seq<char>, pane_out: Seq<char>| #[trigger] Self::thumbs_launched(
                *old(self),
                *final(self),
                opts_out,
                pane_out,
            ),
    {
        let show_args = show_options_args();
        let options_out = self.executor.execute(show_args);
        let tokens = translate_options(options_out.as_str());
        let joined = join_spaces(&tokens);
        let id = self.active_pane_id.as_ref().unwrap().clone();
        let scroll = self.scroll_params();
        let mut cmd = String::from_str("tmux capture-pane -t ");
        cmd.append(id.as_str());
        cmd.append(" -p");
        cmd.append(scroll.as_str());
        cmd.append(" | ");
        cmd.append(self.dir.as_str());
        cmd.append("/target/release/thumbs -f '%U:%H' -t ");
        cmd.append(TMP_FILE);
        cmd.append(" ");
        cmd.append(joined.as_str());
        cmd.append("; tmux swap-pane -t ");
        cmd.append(id.as_str());
        cmd.append("; tmux wait-for -S ");
        cmd.append(self.signal.as_str());
        proof {
            assert(cmd@ == self.spec_pane_command(
                spec_lines_tokens(spec_split(options_out@, '\n')),
            ));
        }
        let window_args = new_window_args(cmd);
        let out = self.executor.execute(window_args);
        self.thumbs_pane_id = Some(out);
        proof {
            assert(Self::thumbs_launched(
                *old(self),
                *self,
                options_out@,
                (self.thumbs_pane_id->Some_0)@,
            ));
        }
    }

    /// The executable scrollback range, matching `spec_scroll_params`.
    fn scroll_params(&self) -> (r: String)
        ensures
            r@ == self.spec_scroll_params(),
    {
        if self.active_pane_in_copy_mode.is_some() {
            match (self.active_pane_height, self.active_pane_scroll_position) {
                (Some(h), Some(p)) => {
                    let mut s = String::from_str(" -S ");
                    let start = fmt_i64(-(p as i64));
                    s.append(start.as_str());
                    s.append(" -E ");
                    let end = fmt_i64(h as i64 - p as i64 - 1);
                    s.append(end.as_str());
                    s
                },
                _ => String::from_str(""),
            }
        } else {
            String::from_str("")
        }
    }

    /// Swaps the probed active pane with the picker's pane, source and
    /// target in exactly that order, without stealing focus.
    pub fn swap_panes(&mut self)
        requires
            old(self).active_pane_id is Some,
            old(self).thumbs_pane_id is Some,
        ensures
            Self::same_config(*old(self), *final(self)),
            final(self).executor.emitted() == old(self).executor.emitted(),
            final(self).active_pane_id == old(self).active_pane_id,
            final(self).active_pane_height == old(self).active_pane_height,
            final(self).active_pane_scroll_position == old(self).active_pane_scroll_position,
            final(self).active_pane_in_copy_mode == old(self).active_pane_in_copy_mode,
            final(self).thumbs_pane_id == old(self).thumbs_pane_id,
            final(self).content == old(self).content,
            final(self).executor.history() == old(self).executor.history().push(
                spec_swap_args(
                    (old(self).active_pane_id->Some_0)@,
                    (old(self).thumbs_pane_id->Some_0)@,
                ),
            ),
    {
        let a = self.active_pane_id.as_ref().unwrap().clone();
        let t = self.thumbs_pane_id.as_ref().unwrap().clone();
        let mut args: Vec<String> = Vec::new();
        args.push(String::from_str("tmux"));
        args.push(String::from_str("swap-pane"));
        args.push(String::from_str("-d"));
        args.push(String::from_str("-s"));
        args.push(a);
        args.push(String::from_str("-t"));
        args.push(t);
        proof {
            assert(args.deep_view() =~= spec_swap_args(
                (old(self).active_pane_id->Some_0)@,
                (old(self).thumbs_pane_id->Some_0)@,
            ));
        }
        self.executor.execute(args);
    }

    /// Blocks on the rendezvous token until the picker pipeline signals
    /// it.
    pub fn wait_thumbs(&mut self)
        ensures
            Self::same_config(*old(self), *final(self)),
            final(self).executor.emitted() == old(self).executor.emitted(),
            final(self).active_pane_id == old(self).active_pane_id,
            final(self).active_pane_height == old(self).active_pane_height,
            final(self).active_pane_scroll_position == old(self).active_pane_scroll_position,
            final(self).active_pane_in_copy_mode == old(self).active_pane_in_copy_mode,
            final(self).thumbs_pane_id == old(self).thumbs_pane_id,
            final(self).content == old(self).content,
            final(self).executor.history() == old(self).executor.history().push(
                spec_wait_args(old(self).signal@),
            ),
    {
        let mut args: Vec<String> = Vec::new();
        args.push(String::from_str("tmux"));
        args.push(String::from_str("wait-for"));
        args.push(self.signal.clone());
        proof {
            assert(args.deep_view() =~= spec_wait_args(old(self).signal@));
        }
        self.executor.execute(args);
    }

    /// Reads the picker's result file and keeps whatever came back as the
    /// selection payload.
    pub fn retrieve_content(&mut self)
        ensures
            Self::same_config(*old(self), *final(self)),
            final(self).executor.emitted() == old(self).executor.emitted(),
            final(self).active_pane_id == old(self).active_pane_id,
            final(self).active_pane_height == old(self).active_pane_height,
            final(self).active_pane_scroll_position == old(self).active_pane_scroll_position,
            final(self).active_pane_in_copy_mode == old(self).active_pane_in_copy_mode,
            final(self).thumbs_pane_id == old(self).thumbs_pane_id,
            final(self).content is Some,
            final(self).executor.history() == old(self).executor.history().push(spec_cat_args()),
    {
        let mut args: Vec<String> = Vec::new();
        args.push(String::from_str("cat"));
        args.push(String::from_str(TMP_FILE));
        proof {
            assert(args.deep_view() =~= spec_cat_args());
        }
        let out = self.executor.execute(args);
        self.content = Some(out);
    }

    /// Deletes the picker's result file. The deletion is one more shell
    /// command with no precondition at all, so a second call — or a call
    /// when the file never existed — runs the same way and cannot fail
    /// the orchestrator.
    pub fn destroy_content(&mut self)
        ensures
            Self::same_config(*old(self), *final(self)),
            final(self).executor.emitted() == old(self).executor.emitted(),
            final(self).active_pane_id == old(self).active_pane_id,
            final(self).active_pane_height == old(self).active_pane_height,
            final(self).active_pane_scroll_position == old(self).active_pane_scroll_position,
            final(self).active_pane_in_copy_mode == old(self).active_pane_in_copy_mode,
            final(self).thumbs_pane_id == old(self).thumbs_pane_id,
            final(self).content == old(self).content,
            final(self).executor.history() == old(self).executor.history().push(spec_rm_args()),
    {
        let mut args: Vec<String> = Vec::new();
        args.push(String::from_str("rm"));
        args.push(String::from_str(TMP_FILE));
        proof {
            assert(args.deep_view() =~= spec_rm_args());
        }
        self.executor.execute(args);
    }

    /// The terminal clipboard escape is emitted inside the dispatcher;
    /// this stage on its own has nothing to do.
    pub fn send_osc52(&mut self)
        ensures
            *final(self) == *old(self),
    {
    }

    /// Decodes the retrieved payload and dispatches the configured
    /// action: nothing at all without a separator colon; otherwise the
    /// clipboard escape for the raw text when enabled, then the chosen
    /// template with the trimmed text substituted, run through a shell.
    pub fn execute_command(&mut self)
        requires
            old(self).content is Some,
        ensures
            Self::same_config(*old(self), *final(self)),
            final(self).active_pane_id == old(self).active_pane_id,
            final(self).active_pane_height == old(self).active_pane_height,
            final(self).active_pane_scroll_position == old(self).active_pane_scroll_position,
            final(self).active_pane_in_copy_mode == old(self).active_pane_in_copy_mode,
            final(self).thumbs_pane_id == old(self).thumbs_pane_id,
            final(self).content == old(self).content,
            ({
                let c = (old(self).content->Some_0)@;
                match spec_command_line(c, old(self).command@, old(self).upcase_command@) {
                    None => final(self).executor.history() == old(self).executor.history()
                        && final(self).executor.emitted() == old(self).executor.emitted(),
                    Some(cmd) => final(self).executor.history() == old(
                        self,
                    ).executor.history().push(spec_bash_args(cmd)) && final(self).executor.emitted()
                        == (if old(self).osc52 {
                        old(self).executor.emitted().push(
                            spec_osc52((spec_selection(c)->Some_0).1),
                        )
                    } else {
                        old(self).executor.emitted()
                    }),
                }
            }),
    {
        let content = self.content.as_ref().unwrap().clone();
        match decode_selection(content.as_str()) {
            None => {},
            Some(p) => {
                if self.osc52 {
                    let escape = osc52_sequence(p.1.as_str());
                    self.executor.emit(escape.as_str());
                }
                let cmd = match build_command(
                    content.as_str(),
                    self.command.as_str(),
                    self.upcase_command.as_str(),
                ) {
                    Some(c) => c,
                    None => {
                        proof {
                            assert(false);
                        }
                        String::new()
                    },
                };
                let mut args: Vec<String> = Vec::new();
                args.push(String::from_str("bash"));
                args.push(String::from_str("-c"));
                args.push(cmd);
                proof {
                    assert(args.deep_view() =~= spec_bash_args(
                        spec_command_line(
                            content@,
                            old(self).command@,
                            old(self).upcase_command@,
                        )->Some_0,
                    ));
                }
                self.executor.execute(args);
            },
        }
    }
}

/// The executable pane-listing query, matching `spec_list_panes_args`.
fn list_panes_args() -> (r: Vec<String>)
    ensures
        r.deep_view() == spec_list_panes_args(),
{
    let mut v: Vec<String> = Vec::new();
    v.push(String::from_str("tmux"));
    v.push(String::from_str("list-panes"));
    v.push(String::from_str("-F"));
    v.push(
        String::from_str(
            "#{pane_id}:#{?pane_in_mode,1,0}:#{pane_height}:#{scroll_position}:#{?pane_active,active,nope}",
        ),
    );
    proof {
        assert(v.deep_view() =~= spec_list_panes_args());
    }
    v
}

/// The executable option dump query, matching `spec_show_options_args`.
fn show_options_args() -> (r: Vec<String>)
    ensures
        r.deep_view() == spec_show_options_args(),
{
    let mut v: Vec<String> = Vec::new();
    v.push(String::from_str("tmux"));
    v.push(String::from_str("show"));
    v.push(String::from_str("-g"));
    proof {
        assert(v.deep_view() =~= spec_show_options_args());
    }
    v
}

/// The executable window creation command, matching
/// `spec_new_window_args`.
fn new_window_args(cmd: String) -> (r: Vec<String>)
    ensures
        r.deep_view() == spec_new_window_args(cmd@),
{
    let mut v: Vec<String> = Vec::new();
    v.push(String::from_str("tmux"));
    v.push(String::from_str("new-window"));
    v.push(String::from_str("-P"));
    v.push(String::from_str("-d"));
    v.push(String::from_str("-n"));
    v.push(String::from_str("[thumbs]"));
    v.push(cmd);
    proof {
        assert(v.deep_view() =~= spec_new_window_args(v@[6]@));
    }
    v
}

} // verus!
