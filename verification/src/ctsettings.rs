//! Model of the external blocking application's exported settings.
//!
//! The export arrives as JSON with every scalar rendered as a string;
//! reading it is plain I/O and stays outside the library. The document's
//! shape, the string-to-value conversions its fields need, and the
//! dormancy check live here.

use vstd::prelude::*;
use crate::digits::dec_val;
use crate::digits::is_dec_seq;
use crate::digits::parse_u32_dec;

verus! {

/// Runtime state of one block as the external application reports it.
#[derive(Debug, Clone, PartialEq, Eq)]
pub struct BlockInfo {
    pub allowance: Option<u32>,
    pub allowance_remaining: Option<u32>,
    pub pomodoro_period_remaining: Option<u32>,
    pub pomodoro_period_state: String,
    pub password: String,
    pub random_text_length: Option<u32>,
    pub schedule_show_all: bool,
    pub block_list: Vec<String>,
    pub exception_list: Vec<String>,
    pub title_list: Vec<String>,
}

impl BlockInfo {
    /// A block is dormant when every runtime field is unset and every
    /// list is empty.
    pub fn is_dormant(&self) -> (r: bool)
        ensures
            r == (self.allowance is None && self.allowance_remaining is None
                && self.pomodoro_period_remaining is None && self.pomodoro_period_state@.len() == 0
                && self.password@.len() == 0 && self.random_text_length is None
                && self.block_list@.len() == 0 && self.exception_list@.len() == 0
                && self.title_list@.len() == 0),
    {
        self.allowance.is_none() && self.allowance_remaining.is_none()
            && self.pomodoro_period_remaining.is_none()
            && self.pomodoro_period_state.as_str().is_empty() && self.password.as_str().is_empty()
            && self.random_text_length.is_none() && self.block_list.is_empty()
            && self.exception_list.is_empty() && self.title_list.is_empty()
    }
}

/// The exported map of blocks, keyed by block name.
#[derive(Debug)]
pub struct BlockListInfo {
    pub blocks: Vec<(String, BlockInfo)>,
}

/// The whole exported settings document.
#[derive(Debug)]
pub struct ColdTurkeySettings {
    pub version: u32,
    pub block_list_info: BlockListInfo,
    pub paused: bool,
    pub stats_enabled: bool,
    pub stats_enabled_incognito: bool,
    pub stats_strict: bool,
    pub block_embedded: bool,
    pub block_charity: bool,
    pub block_inactive: bool,
    pub force_allow_file: bool,
    pub is_pro: String,
    pub ignore_incognito: bool,
}

/// The names of all exported blocks, in stored order; empty when no
/// settings could be read.
pub fn get_all_ct_blocks(settings: Option<&ColdTurkeySettings>) -> (r: Vec<String>)
    ensures
        match settings {
            Some(s) => r@.len() == s.block_list_info.blocks@.len() && forall|i: int|
                0 <= i < r@.len() ==> (#[trigger] r@[i])@ == s.block_list_info.blocks@[i].0@,
            None => r@.len() == 0,
        },
{
    match settings {
        Some(s) => {
            let n = s.block_list_info.blocks.len();
            let mut r: Vec<String> = Vec::new();
            let mut i: usize = 0;
            while i < n
                invariant
                    i <= n,
                    n == s.block_list_info.blocks@.len(),
                    r@.len() == i,
                    forall|j: int|
                        0 <= j < i ==> (#[trigger] r@[j])@ == s.block_list_info.blocks@[j].0@,
                decreases n - i,
            {
                r.push(s.block_list_info.blocks[i].0.clone());
                i = i + 1;
            }
            r
        },
        None => Vec::new(),
    }
}

/// Reads an optional string-encoded number as the export writes it: the
/// empty string stands for no value, a decimal run for a value; anything
/// else is rejected.
pub fn parse_opt_u32_str(s: &str) -> (r: Option<Option<u32>>)
    ensures
        s@.len() == 0 ==> r == Some(None::<u32>),
        s@.len() > 0 ==> r == (if is_dec_seq(s@) && dec_val(s@) <= u32::MAX {
            Some(Some(dec_val(s@) as u32))
        } else {
            None::<Option<u32>>
        }),
{
    if s.is_empty() {
        Some(None)
    } else {
        match parse_u32_dec(s) {
            Some(v) => Some(Some(v)),
            None => None,
        }
    }
}

} // verus!
