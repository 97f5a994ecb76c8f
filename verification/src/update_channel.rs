//! The update channel an installation follows, and its wire names.
use vstd::prelude::*;

use crate::text::text_eq;

verus! {

/// Release channel of the update discovery service.
#[derive(Debug, Clone, Copy, PartialEq, Eq, Structural)]
pub enum UpdateChannel {
    Stable,
    Beta,
    Disabled,
}

/// Wire name of a channel.
pub open spec fn channel_name(channel: UpdateChannel) -> Seq<char> {
    match channel {
        UpdateChannel::Stable => "stable"@,
        UpdateChannel::Beta => "beta"@,
        UpdateChannel::Disabled => "disabled"@,
    }
}

/// The channel whose wire name is exactly `name`, if any.
pub open spec fn channel_named(name: Seq<char>) -> Option<UpdateChannel> {
    if name == "stable"@ {
        Some(UpdateChannel::Stable)
    } else if name == "beta"@ {
        Some(UpdateChannel::Beta)
    } else if name == "disabled"@ {
        Some(UpdateChannel::Disabled)
    } else {
        None
    }
}

/// The wire name of a channel.
pub fn update_channel_name(channel: UpdateChannel) -> (name: &'static str)
    ensures
        name@ == channel_name(channel),
{
    match channel {
        UpdateChannel::Stable => "stable",
        UpdateChannel::Beta => "beta",
        UpdateChannel::Disabled => "disabled",
    }
}

/// Parses a channel name; only the exact lower-case names are accepted.
pub fn parse_update_channel_name(value: &str) -> (r: Result<UpdateChannel, String>)
    ensures
        r matches Ok(c) ==> channel_named(value@) == Some(c),
        r is Err <==> channel_named(value@) is None,
        r matches Err(m) ==> m@ == "channel must be stable, beta or disabled"@,
{
    if text_eq(value, "stable") {
        Ok(UpdateChannel::Stable)
    } else if text_eq(value, "beta") {
        Ok(UpdateChannel::Beta)
    } else if text_eq(value, "disabled") {
        Ok(UpdateChannel::Disabled)
    } else {
        Err("channel must be stable, beta or disabled".to_string())
    }
}

/// Reading back the name written for a channel gives that channel, and
/// the three names are distinct.
pub proof fn lemma_channel_name_round_trip(channel: UpdateChannel)
    ensures
        channel_named(channel_name(channel)) == Some(channel),
{
    reveal_strlit("stable");
    reveal_strlit("beta");
    reveal_strlit("disabled");
    assert("stable"@ != "beta"@) by {
        assert("stable"@[0] != "beta"@[0]);
    }
    assert("stable"@ != "disabled"@) by {
        assert("stable"@[0] != "disabled"@[0]);
    }
    assert("beta"@ != "disabled"@) by {
        assert("beta"@[0] != "disabled"@[0]);
    }
}

/// A name that parses is the name of the channel it parses to.
pub proof fn lemma_channel_parse_is_injective(name: Seq<char>)
    ensures
        channel_named(name) matches Some(c) ==> channel_name(c) == name,
{
}

} // verus!
