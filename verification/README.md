# quiz_app

The models and client rules of a quiz web application, written in Verus.

- `src/` is the verified library: record ids and stored records (`surreal`),
  the shared data models and their validation (`models`), the question forge
  (`questions`), the dashboard state and quiz list (`dashboard`), taking a quiz
  and its scoring (`exam`), login and sign-up (`auth`), what the client does with
  each reply (`replies`), request bodies (`requests`), request descriptions (`fetch`), settings (`settings`), and the
  text and list operations these rely on (`text`, `lists`).
- `tests/` runs the library on concrete values.
- `app/` is the Leptos program in the browser: pages, components, network
  I/O and the serde copies of the library's data types.
