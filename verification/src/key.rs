//! The commands that convert between keys and tags.

use crate::error::Error;
use crate::options::TagCommands;
use vstd::prelude::*;
use vstd::utf8::encode_utf8;

verus! {

/// Whether `lines` are what a command prints. To encode a key is to print
/// its primary tag, and then, where they are asked for, its fallback tags in
/// their order. To decode a tag is to print its key, or to fail as the
/// decoding fails.
pub open spec fn printed(command: TagCommands, r: Result<Vec<String>, Error>) -> bool {
    match command {
        TagCommands::Encode { key, fallbacks, encoding_options } => {
            &&& r matches Ok(lines)
            &&& lines@.len() == (if fallbacks {
                encoding_options.encodings().len()
            } else {
                1
            })
            &&& forall|i: int|
                0 <= i < lines@.len() ==> (#[trigger] lines@[i])@
                    == encoding_options.encodings()[i].tag_of(key@)
        },
        TagCommands::Decode { tag, encoding_options } => match crate::convert::first_key(
            encoding_options.encodings(),
            tag@,
        ) {
            Some(key) => r matches Ok(lines) && lines@.len() == 1 && lines@[0]@ == key,
            None => r matches Err(Error::TagToKey(errors)) && errors@.len()
                == encoding_options.encodings().len() && forall|i: int|
                0 <= i < errors@.len() ==> encoding_options.encodings()[i].refuses(
                    tag@,
                    #[trigger] errors@[i],
                ),
        },
    }
}

/// Whether the key or the tag of a command is within the limits of the
/// encodings.
pub open spec fn convertible(command: TagCommands) -> bool {
    match command {
        TagCommands::Encode { key, encoding_options, .. } => encoding_options.takes_key(
            encode_utf8(key@).len() as int,
        ),
        TagCommands::Decode { tag, encoding_options } => encoding_options.takes_tag(
            encode_utf8(tag@).len() as int,
        ),
    }
}

/// Runs a command, and gives the lines to print.
pub fn key_main(command: TagCommands) -> (r: Result<Vec<String>, Error>)
    requires
        convertible(command),
    ensures
        printed(command, r),
{
    match command {
        TagCommands::Encode { key, fallbacks, encoding_options } => {
            let (main, mut rest) = encoding_options.key_to_tag(key.as_str());
            let ghost tags = rest@;
            let mut lines: Vec<String> = Vec::new();
            lines.push(main);
            if fallbacks {
                lines.append(&mut rest);
            }
            assert forall|i: int| 0 <= i < lines@.len() implies (#[trigger] lines@[i])@
                == encoding_options.encodings()[i].tag_of(key@) by {
                if i > 0 {
                    assert(lines@[i] == tags[i - 1]);
                    assert(encoding_options.encodings()[i]
                        == encoding_options.fallback_encodings@[i - 1]);
                }
            }
            Ok(lines)
        },
        TagCommands::Decode { tag, encoding_options } => {
            match encoding_options.tag_to_key(tag.as_str()) {
                Ok(key) => {
                    let mut lines: Vec<String> = Vec::new();
                    lines.push(key);
                    Ok(lines)
                },
                Err(e) => Err(e),
            }
        },
    }
}

} // verus!
