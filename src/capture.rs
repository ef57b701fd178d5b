use vstd::prelude::*;
use crate::text::{starts_with_char, str_eq};

verus! {

/// The command-line flag that asks for a screenshot of the last frame.
pub const SCREENSHOT_FLAG: &'static str = "--screenshot";

/// Whether a command-line word is an option rather than a value.
pub open spec fn is_option_word(s: Seq<char>) -> bool {
    s.len() > 0 && s[0] == '-'
}

/// Screenshot settings taken from the command line.
#[derive(Debug, Clone, PartialEq, Eq)]
pub struct CaptureOptions {
    pub screenshot_requested: bool,
    pub screenshot_dir_override: Option<String>,
}

impl Default for CaptureOptions {
    fn default() -> (r: Self)
        ensures
            !r.screenshot_requested,
            r.screenshot_dir_override is None,
    {
        CaptureOptions { screenshot_requested: false, screenshot_dir_override: None }
    }
}

impl CaptureOptions {
    /// Consumes `args[*index]` if it is `--screenshot`, together with the
    /// word after it when that word is not an option: it becomes the
    /// screenshot directory. Returns whether the flag was consumed.
    pub fn parse_arg(&mut self, args: &[String], index: &mut usize) -> (r: Result<bool, String>)
        requires
            *old(index) < args@.len(),
        ensures
            args@[*old(index) as int]@ != SCREENSHOT_FLAG@ ==> r == Ok::<bool, String>(false)
                && *final(self) == *old(self) && *final(index) == *old(index),
            args@[*old(index) as int]@ == SCREENSHOT_FLAG@ ==> {
                let i = *old(index) as int;
                &&& r == Ok::<bool, String>(true)
                &&& final(self).screenshot_requested
                &&& if i + 1 < args@.len() && !is_option_word(args@[i + 1]@) {
                    &&& final(self).screenshot_dir_override == Some(args@[i + 1])
                    &&& *final(index) == i + 2
                } else {
                    &&& final(self).screenshot_dir_override == old(
                        self,
                    ).screenshot_dir_override
                    &&& *final(index) == i + 1
                }
            },
    {
        let i = *index;
        if !str_eq(args[i].as_str(), SCREENSHOT_FLAG) {
            return Ok(false);
        }
        self.screenshot_requested = true;
        if i + 1 < args.len() && !starts_with_char(args[i + 1].as_str(), '-') {
            self.screenshot_dir_override = Some(args[i + 1].clone());
            *index = i + 2;
        } else {
            *index = i + 1;
        }
        Ok(true)
    }

    /// The directory to save a screenshot in, or `None` when none was asked for.
    pub fn resolved_screenshot_dir(&self, default_dir: &str) -> (r: Option<String>)
        ensures
            !self.screenshot_requested ==> r is None,
            self.screenshot_requested ==> r is Some && r->0@ == match self.screenshot_dir_override {
                Some(d) => d@,
                None => default_dir@,
            },
    {
        if !self.screenshot_requested {
            return None;
        }
        match &self.screenshot_dir_override {
            Some(d) => Some(d.clone()),
            None => Some(default_dir.to_owned()),
        }
    }
}

} // verus!
