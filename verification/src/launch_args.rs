//! The command-line arguments of the GPU validation run.
use crate::text::{parse_u64_text, str_eq, u64_text_value};
use vstd::prelude::*;

verus! {

/// The outcome of reading `args` in order, starting with `frames`:
/// `--validate-gpu` asks for 120 frames, `--frames N` for `N` frames (at
/// least one); anything else is an error.
pub open spec fn validation_frames(args: Seq<Seq<char>>, frames: Option<u64>) -> Result<
    Option<u64>,
    Seq<char>,
>
    decreases args.len(),
{
    if args.len() == 0 {
        Ok(frames)
    } else {
        let argument = args[0];
        if argument == "--validate-gpu"@ {
            validation_frames(args.drop_first(), Some(120))
        } else if argument == "--frames"@ {
            if args.len() < 2 {
                Err("--frames requires a value"@)
            } else {
                match u64_text_value(args[1]) {
                    None => Err("invalid --frames value"@),
                    Some(v) => validation_frames(
                        args.skip(2),
                        Some(
                            if v < 1 {
                                1
                            } else {
                                v
                            },
                        ),
                    ),
                }
            }
        } else {
            Err("unknown argument: "@ + argument)
        }
    }
}

/// The characters of each argument.
pub open spec fn argument_texts(v: Seq<String>) -> Seq<Seq<char>> {
    v.map_values(|s: String| s@)
}

/// Reads the number of frames to validate from the program arguments (the
/// program name excluded): `None` when validation was not asked for.
pub fn parse_validation_frames(args: &[String]) -> (r: Result<Option<u64>, String>)
    ensures
        match r {
            Ok(frames) => validation_frames(argument_texts(args@), None) == Ok::<
                Option<u64>,
                Seq<char>,
            >(frames),
            Err(message) => validation_frames(argument_texts(args@), None) == Err::<
                Option<u64>,
                Seq<char>,
            >(message@),
        },
{
    let ghost texts = argument_texts(args@);
    let mut frames: Option<u64> = None;
    let mut i: usize = 0;
    assert(texts.skip(0) =~= texts);
    while i < args.len()
        invariant
            i <= args@.len(),
            texts == argument_texts(args@),
            validation_frames(texts, None) == validation_frames(texts.skip(i as int), frames),
        decreases args@.len() - i,
    {
        let ghost rest = texts.skip(i as int);
        assert(rest[0] == args@[i as int]@);
        let argument = args[i].as_str();
        if str_eq(argument, "--validate-gpu") {
            frames = Some(120);
            assert(rest.drop_first() =~= texts.skip(i + 1));
            i = i + 1;
        } else if str_eq(argument, "--frames") {
            if i + 1 >= args.len() {
                return Err(String::from_str("--frames requires a value"));
            }
            assert(rest[1] == args@[i + 1]@);
            match parse_u64_text(args[i + 1].as_str()) {
                None => {
                    return Err(String::from_str("invalid --frames value"));
                },
                Some(v) => {
                    frames = Some(
                        if v < 1 {
                            1
                        } else {
                            v
                        },
                    );
                },
            }
            assert(rest.skip(2) =~= texts.skip(i + 2));
            i = i + 2;
        } else {
            let mut message = String::from_str("unknown argument: ");
            message.append(argument);
            return Err(message);
        }
    }
    assert(texts.skip(args@.len() as int) =~= Seq::<Seq<char>>::empty());
    Ok(frames)
}

} // verus!
